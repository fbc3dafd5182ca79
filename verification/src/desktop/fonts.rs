//! The fonts of the window: where they are looked for, and in which order text is set in them.

use crate::text::texts;
use vstd::prelude::*;

verus! {

/// Whether the bytes of a file are a font.
pub uninterp spec fn font_parses(bytes: Seq<u8>) -> bool;

/// `ab_glyph::FontArc::try_from_vec` reads the first font of a file; whether that works depends on
/// the bytes alone.
#[verifier::external_body]
fn parses(bytes: &Vec<u8>) -> (r: bool)
    ensures
        r == font_parses(bytes@),
{
    ab_glyph::FontArc::try_from_vec(bytes.clone()).is_ok()
}

/// The fonts that a window falls back on for Chinese text, in the order in which they are tried.
pub fn cjk_font_candidates() -> (r: Vec<&'static str>)
    ensures
        r@.len() == cjk_fonts().len(),
        forall|i: int| 0 <= i < r@.len() ==> (#[trigger] r@[i])@ == cjk_fonts()[i],
{
    let list = vec![
        "/System/Library/Fonts/Supplemental/Arial Unicode.ttf",
        "/System/Library/Fonts/Supplemental/Songti.ttc",
        "/System/Library/Fonts/STHeiti Light.ttc",
        "/System/Library/Fonts/STHeiti Medium.ttc",
        "/System/Library/Fonts/Hiragino Sans GB.ttc",
        "/System/Library/Fonts/PingFang.ttc",
        "C:\\Windows\\Fonts\\simhei.ttf",
        "C:\\Windows\\Fonts\\Deng.ttf",
        "C:\\Windows\\Fonts\\simkai.ttf",
        "C:\\Windows\\Fonts\\msyh.ttc",
        "C:\\Windows\\Fonts\\simsun.ttc",
        "C:\\Windows\\Fonts\\msyhl.ttc",
        "/usr/share/fonts/opentype/noto/NotoSansCJK-Regular.ttc",
        "/usr/share/fonts/noto-cjk/NotoSansCJK-Regular.ttc",
        "/usr/share/fonts/truetype/wqy/wqy-microhei.ttc",
        "/usr/share/fonts/wenquanyi/wqy-microhei/wqy-microhei.ttc"
    ];
    list
}

pub open spec fn cjk_fonts() -> Seq<Seq<char>> {
    seq![
        "/System/Library/Fonts/Supplemental/Arial Unicode.ttf"@,
        "/System/Library/Fonts/Supplemental/Songti.ttc"@,
        "/System/Library/Fonts/STHeiti Light.ttc"@,
        "/System/Library/Fonts/STHeiti Medium.ttc"@,
        "/System/Library/Fonts/Hiragino Sans GB.ttc"@,
        "/System/Library/Fonts/PingFang.ttc"@,
        "C:\\Windows\\Fonts\\simhei.ttf"@,
        "C:\\Windows\\Fonts\\Deng.ttf"@,
        "C:\\Windows\\Fonts\\simkai.ttf"@,
        "C:\\Windows\\Fonts\\msyh.ttc"@,
        "C:\\Windows\\Fonts\\simsun.ttc"@,
        "C:\\Windows\\Fonts\\msyhl.ttc"@,
        "/usr/share/fonts/opentype/noto/NotoSansCJK-Regular.ttc"@,
        "/usr/share/fonts/noto-cjk/NotoSansCJK-Regular.ttc"@,
        "/usr/share/fonts/truetype/wqy/wqy-microhei.ttc"@,
        "/usr/share/fonts/wenquanyi/wqy-microhei/wqy-microhei.ttc"@,
    ]
}

/// The fonts for fixed-width text that systems bring, in the order in which they are tried.
pub fn system_mono_candidates() -> (r: Vec<&'static str>)
    ensures
        r@.len() == system_mono_fonts().len(),
        forall|i: int| 0 <= i < r@.len() ==> (#[trigger] r@[i])@ == system_mono_fonts()[i],
{
    let list = vec![
        "/System/Library/Fonts/Monaco.ttf",
        "C:\\Windows\\Fonts\\consola.ttf",
        "/usr/share/fonts/truetype/dejavu/DejaVuSansMono.ttf"
    ];
    list
}

pub open spec fn system_mono_fonts() -> Seq<Seq<char>> {
    seq![
        "/System/Library/Fonts/Monaco.ttf"@,
        "C:\\Windows\\Fonts\\consola.ttf"@,
        "/usr/share/fonts/truetype/dejavu/DejaVuSansMono.ttf"@,
    ]
}

/// The fonts for symbols, in the order in which they are tried.
pub fn symbol_candidates() -> (r: Vec<&'static str>)
    ensures
        r@.len() == symbol_fonts().len(),
        forall|i: int| 0 <= i < r@.len() ==> (#[trigger] r@[i])@ == symbol_fonts()[i],
{
    let list = vec![
        "/System/Library/Fonts/Apple Symbols.ttf",
        "C:\\Windows\\Fonts\\seguisym.ttf",
        "/usr/share/fonts/truetype/dejavu/DejaVuSans.ttf"
    ];
    list
}

pub open spec fn symbol_fonts() -> Seq<Seq<char>> {
    seq![
        "/System/Library/Fonts/Apple Symbols.ttf"@,
        "C:\\Windows\\Fonts\\seguisym.ttf"@,
        "/usr/share/fonts/truetype/dejavu/DejaVuSans.ttf"@,
    ]
}

/// A file that could be read, and is a font.
pub open spec fn usable(file: Option<Vec<u8>>) -> bool {
    match file {
        Some(bytes) => font_parses(bytes@),
        None => false,
    }
}

/// Whether a place in a list of files is that of the first usable one.
pub open spec fn is_first_usable(files: Seq<Option<Vec<u8>>>, at: Option<usize>) -> bool {
    match at {
        Some(at) => {
            &&& at < files.len()
            &&& usable(files[at as int])
            &&& forall|i: int| 0 <= i < at ==> !usable(#[trigger] files[i])
        },
        None => forall|i: int| 0 <= i < files.len() ==> !usable(#[trigger] files[i]),
    }
}

/// The first file that could be read and is a font: a font that cannot be read would have text
/// drawn as boxes.
pub fn first_usable(files: &Vec<Option<Vec<u8>>>) -> (r: Option<usize>)
    ensures
        is_first_usable(files@, r),
{
    let mut i: usize = 0;
    while i < files.len()
        invariant
            i <= files.len(),
            forall|k: int| 0 <= k < i ==> !usable(#[trigger] files@[k]),
        decreases files.len() - i,
    {
        if let Some(bytes) = &files[i] {
            if parses(bytes) {
                assert(usable(files@[i as int]));
                return Some(i);
            }
        }
        assert(!usable(files@[i as int]));
        i = i + 1;
    }
    None
}

/// Which fonts there are: whether the user's own could be read, and of each list of candidates the
/// one that is used.
#[derive(Clone, Copy, Debug, PartialEq, Eq)]
pub struct LoadedFonts {
    pub custom: bool,
    pub cjk: Option<usize>,
    pub system_mono: Option<usize>,
    pub symbols: Option<usize>,
}

/// Looks through the candidates. The user's own font is taken as it is.
pub fn find_fonts(
    custom: bool,
    cjk: &Vec<Option<Vec<u8>>>,
    system_mono: &Vec<Option<Vec<u8>>>,
    symbols: &Vec<Option<Vec<u8>>>,
) -> (r: LoadedFonts)
    ensures
        r.custom == custom,
        is_first_usable(cjk@, r.cjk),
        is_first_usable(system_mono@, r.system_mono),
        is_first_usable(symbols@, r.symbols),
{
    LoadedFonts {
        custom,
        cjk: first_usable(cjk),
        system_mono: first_usable(system_mono),
        symbols: first_usable(symbols),
    }
}

/// The families that text is set in, the first font first. `custom` is the family of the user's
/// own font, where there is one.
pub struct FontFamilies {
    pub monospace: Vec<String>,
    pub proportional: Vec<String>,
    pub custom: Option<Vec<String>>,
}

pub open spec fn some_font(present: bool, name: Seq<char>) -> Seq<Seq<char>> {
    if present {
        seq![name]
    } else {
        Seq::empty()
    }
}

fn push_font(list: &mut Vec<String>, present: bool, name: &str)
    ensures
        texts(final(list)@) == texts(old(list)@) + some_font(present, name@),
{
    if present {
        list.push(name.to_owned());
    }
    assert(texts(list@) =~= texts(old(list)@) + some_font(present, name@));
}

fn push_fonts(list: &mut Vec<String>, names: &Vec<String>)
    ensures
        texts(final(list)@) == texts(old(list)@) + texts(names@),
{
    let mut i: usize = 0;
    assert(texts(list@) =~= texts(old(list)@) + texts(names@).take(0));
    while i < names.len()
        invariant
            i <= names.len(),
            texts(list@) == texts(old(list)@) + texts(names@).take(i as int),
        decreases names.len() - i,
    {
        let ghost before = list@;
        list.push(names[i].clone());
        assert(texts(list@) =~= texts(before).push(names@[i as int]@));
        assert(texts(list@) =~= texts(old(list)@) + texts(names@).take(i + 1));
        i = i + 1;
    }
    assert(texts(names@).take(i as int) =~= texts(names@));
}

/// Arranges the fonts: the user's own and that of the system before the built-in ones, symbols and
/// Chinese behind them.
pub fn install_fonts(fonts: &LoadedFonts, monospace: &Vec<String>, proportional: &Vec<String>) -> (r:
    FontFamilies)
    ensures
        texts(r.monospace@) == some_font(fonts.custom, "hapcli-terminal-font"@) + some_font(
            fonts.system_mono is Some,
            "hapcli-system-mono"@,
        ) + texts(monospace@) + some_font(fonts.symbols is Some, "hapcli-symbol"@) + some_font(
            fonts.cjk is Some,
            "hapcli-cjk"@,
        ),
        texts(r.proportional@) == texts(proportional@) + some_font(
            fonts.symbols is Some,
            "hapcli-symbol"@,
        ) + some_font(fonts.cjk is Some, "hapcli-cjk"@),
        match r.custom {
            Some(family) => fonts.custom && texts(family@) == seq![
                "hapcli-terminal-font"@,
                "Hack"@,
            ] + some_font(fonts.cjk is Some, "hapcli-cjk"@),
            None => !fonts.custom,
        },
{
    let mut mono: Vec<String> = Vec::new();
    assert(texts(mono@) =~= Seq::empty());
    push_font(&mut mono, fonts.custom, "hapcli-terminal-font");
    push_font(&mut mono, fonts.system_mono.is_some(), "hapcli-system-mono");
    push_fonts(&mut mono, monospace);
    push_font(&mut mono, fonts.symbols.is_some(), "hapcli-symbol");
    push_font(&mut mono, fonts.cjk.is_some(), "hapcli-cjk");
    assert(texts(mono@) =~= some_font(fonts.custom, "hapcli-terminal-font"@) + some_font(
        fonts.system_mono is Some,
        "hapcli-system-mono"@,
    ) + texts(monospace@) + some_font(fonts.symbols is Some, "hapcli-symbol"@) + some_font(
        fonts.cjk is Some,
        "hapcli-cjk"@,
    ));
    let mut sans: Vec<String> = Vec::new();
    assert(texts(sans@) =~= Seq::empty());
    push_fonts(&mut sans, proportional);
    push_font(&mut sans, fonts.symbols.is_some(), "hapcli-symbol");
    push_font(&mut sans, fonts.cjk.is_some(), "hapcli-cjk");
    assert(texts(sans@) =~= texts(proportional@) + some_font(fonts.symbols is Some, "hapcli-symbol"@)
        + some_font(fonts.cjk is Some, "hapcli-cjk"@));
    let custom = if fonts.custom {
        let mut family: Vec<String> = Vec::new();
        family.push("hapcli-terminal-font".to_owned());
        family.push("Hack".to_owned());
        assert(texts(family@) =~= seq!["hapcli-terminal-font"@, "Hack"@]);
        push_font(&mut family, fonts.cjk.is_some(), "hapcli-cjk");
        Some(family)
    } else {
        None
    };
    FontFamilies { monospace: mono, proportional: sans, custom }
}

/// Where fonts are looked for, in this order.
pub proof fn law_fonts_are_looked_for_in_order()
    ensures
        cjk_fonts().len() == 16,
        cjk_fonts()[0] == "/System/Library/Fonts/Supplemental/Arial Unicode.ttf"@,
        cjk_fonts()[1] == "/System/Library/Fonts/Supplemental/Songti.ttc"@,
        cjk_fonts()[2] == "/System/Library/Fonts/STHeiti Light.ttc"@,
        cjk_fonts()[3] == "/System/Library/Fonts/STHeiti Medium.ttc"@,
        cjk_fonts()[4] == "/System/Library/Fonts/Hiragino Sans GB.ttc"@,
        cjk_fonts()[5] == "/System/Library/Fonts/PingFang.ttc"@,
        cjk_fonts()[6] == "C:\\Windows\\Fonts\\simhei.ttf"@,
        cjk_fonts()[7] == "C:\\Windows\\Fonts\\Deng.ttf"@,
        cjk_fonts()[8] == "C:\\Windows\\Fonts\\simkai.ttf"@,
        cjk_fonts()[9] == "C:\\Windows\\Fonts\\msyh.ttc"@,
        cjk_fonts()[10] == "C:\\Windows\\Fonts\\simsun.ttc"@,
        cjk_fonts()[11] == "C:\\Windows\\Fonts\\msyhl.ttc"@,
        cjk_fonts()[12] == "/usr/share/fonts/opentype/noto/NotoSansCJK-Regular.ttc"@,
        cjk_fonts()[13] == "/usr/share/fonts/noto-cjk/NotoSansCJK-Regular.ttc"@,
        cjk_fonts()[14] == "/usr/share/fonts/truetype/wqy/wqy-microhei.ttc"@,
        cjk_fonts()[15] == "/usr/share/fonts/wenquanyi/wqy-microhei/wqy-microhei.ttc"@,
        system_mono_fonts().len() == 3,
        system_mono_fonts()[0] == "/System/Library/Fonts/Monaco.ttf"@,
        system_mono_fonts()[1] == "C:\\Windows\\Fonts\\consola.ttf"@,
        system_mono_fonts()[2] == "/usr/share/fonts/truetype/dejavu/DejaVuSansMono.ttf"@,
        symbol_fonts().len() == 3,
        symbol_fonts()[0] == "/System/Library/Fonts/Apple Symbols.ttf"@,
        symbol_fonts()[1] == "C:\\Windows\\Fonts\\seguisym.ttf"@,
        symbol_fonts()[2] == "/usr/share/fonts/truetype/dejavu/DejaVuSans.ttf"@,
{
}

/// The file that is used is one that could be read and is a font, and no file before it is one;
/// there is at most one such place, and none exactly where no file is a font.
pub proof fn law_the_first_font_is_used(
    files: Seq<Option<Vec<u8>>>,
    at: Option<usize>,
    other: Option<usize>,
)
    requires
        files.len() <= usize::MAX,
        is_first_usable(files, at),
    ensures
        is_first_usable(files, other) ==> at == other,
        at matches Some(place) ==> place < files.len() && (files[place as int] matches Some(bytes)
            && font_parses(bytes@)),
        at is None <==> forall|i: int|
            0 <= i < files.len() ==> ((#[trigger] files[i]) matches Some(bytes) ==> !font_parses(
                bytes@,
            )),
{
    if is_first_usable(files, other) {
        if let (Some(a), Some(b)) = (at, other) {
            if a < b {
                assert(!usable(files[a as int]));
            } else if b < a {
                assert(!usable(files[b as int]));
            }
        }
    }
    if let Some(place) = at {
        assert(usable(files[place as int]));
    } else {
        assert forall|i: int| 0 <= i < files.len() implies ((#[trigger] files[i]) matches Some(
            bytes,
        ) ==> !font_parses(bytes@)) by {
            assert(!usable(files[i]));
        }
    }
}

/// A font that is there stands in a family once, and one that is not does not.
pub proof fn law_fonts_that_are_there_are_listed(name: Seq<char>)
    ensures
        some_font(true, name) == seq![name],
        some_font(false, name).len() == 0,
{
}

} // verus!
