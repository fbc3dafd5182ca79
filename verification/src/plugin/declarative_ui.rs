//! Declarative forms that a plugin asks the host to render.

use crate::json::json_view;
use crate::plugin::manifest::{
    NativePluginDeclarativeUiColumn, NativePluginDeclarativeUiControl,
    NativePluginDeclarativeUiOption, NativePluginDeclarativeUiSchema,
    NativePluginDeclarativeUiSection,
};
use crate::plugin::rules::{
    check_all, earlier, first_of, is_one_of, one_of_problem, problem, problems_of, str_views,
    text_field_problem, validate_manifest_text_field, validate_one_of, Checked,
};
use crate::text::{concat2, concat3, decimal, decimal_text, same, texts};
use vstd::prelude::*;

verus! {

pub const NATIVE_PLUGIN_DECLARATIVE_UI_COMPONENT_VERSION: u8 = 1;

pub const NATIVE_PLUGIN_MAX_DECLARATIVE_UI_DEPTH: usize = 8;

pub const NATIVE_PLUGIN_MAX_DECLARATIVE_UI_CONTROLS: usize = 256;

pub const NATIVE_PLUGIN_MAX_DECLARATIVE_UI_CHILDREN: usize = 64;

pub const NATIVE_PLUGIN_MAX_DECLARATIVE_UI_OPTIONS: usize = 128;

pub const NATIVE_PLUGIN_MAX_DECLARATIVE_UI_ROWS: usize = 2000;

pub const NATIVE_PLUGIN_MAX_DECLARATIVE_UI_COLUMNS: usize = 64;

pub const NATIVE_PLUGIN_MAX_DECLARATIVE_UI_BYTES: usize = 2097152;

/// The message of a limit: the words before the number, the number, the words after it.
pub open spec fn limit_message(before: Seq<char>, limit: nat, after: Seq<char>) -> Option<Seq<char>> {
    Some(before + decimal(limit) + after)
}

fn limit_error(before: &str, limit: usize, after: &str) -> (r: Result<(), String>)
    ensures
        problem(r) == limit_message(before@, limit as nat, after@),
{
    Err(concat3(before, decimal_text(limit as u64).as_str(), after))
}

/// The kinds of control that need an id.
pub open spec fn kinds_with_id() -> Seq<Seq<char>> {
    seq![
        "text"@,
        "password"@,
        "number"@,
        "checkbox"@,
        "select"@,
        "radioGroup"@,
        "radio-group"@,
        "slider"@,
        "segmentedControl"@,
        "segmented-control"@,
        "button"@,
        "iconButton"@,
        "icon-button"@,
    ]
}

pub fn native_plugin_declarative_control_requires_id(kind: &str) -> (r: bool)
    ensures
        r == kinds_with_id().contains(kind@),
{
    let kinds = [
        "text",
        "password",
        "number",
        "checkbox",
        "select",
        "radioGroup",
        "radio-group",
        "slider",
        "segmentedControl",
        "segmented-control",
        "button",
        "iconButton",
        "icon-button",
    ];
    assert(str_views(kinds@) == kinds_with_id());
    is_one_of(kind, &kinds)
}

/// Whether an optional text is missing or empty.
pub open spec fn lacks_text(text: Option<String>) -> bool {
    match text {
        Some(text) => text@.len() == 0,
        None => true,
    }
}

fn is_lacking(text: &Option<String>) -> (r: bool)
    ensures
        r == lacks_text(*text),
{
    match text {
        Some(text) => text.as_str().is_empty(),
        None => true,
    }
}

pub open spec fn is_icon_button(kind: Seq<char>) -> bool {
    kind == "iconButton"@ || kind == "icon-button"@
}

pub open spec fn is_button(kind: Seq<char>) -> bool {
    kind == "button"@ || is_icon_button(kind)
}

/// A button that can be pressed: it has an id and is neither disabled nor loading.
pub open spec fn is_actionable(control: NativePluginDeclarativeUiControl) -> bool {
    is_button(control.kind@) && !control.disabled && !control.loading && control.id is Some
}

pub fn native_plugin_declarative_control_is_actionable(
    control: &NativePluginDeclarativeUiControl,
) -> (r: bool)
    ensures
        r == is_actionable(*control),
{
    let kind = control.kind.as_str();
    (same(kind, "button") || same(kind, "iconButton") || same(kind, "icon-button"))
        && !control.disabled && !control.loading && control.id.is_some()
}

/// The variants that a kind of control offers.
pub open spec fn variants_for(kind: Seq<char>) -> Seq<Seq<char>> {
    if is_button(kind) {
        seq!["default"@, "secondary"@, "outline"@, "ghost"@, "destructive"@, "link"@]
    } else if kind == "card"@ {
        seq!["panel"@, "inset"@, "inspector"@]
    } else {
        seq!["default"@]
    }
}

/// The problem of an optional word.
pub open spec fn optional_word_problem(
    field: Seq<char>,
    word: Option<String>,
    allowed: Seq<Seq<char>>,
) -> Option<Seq<char>> {
    match word {
        Some(word) => one_of_problem(field, word@, allowed),
        None => None,
    }
}

fn validate_optional_word(field: &str, word: &Option<String>, allowed: &[&str]) -> (r: Result<
    (),
    String,
>)
    ensures
        problem(r) == optional_word_problem(field@, *word, str_views(allowed@)),
{
    match word {
        Some(word) => validate_one_of(field, word.as_str(), allowed),
        None => Ok(()),
    }
}

fn validate_variant(control: &NativePluginDeclarativeUiControl) -> (r: Result<(), String>)
    ensures
        problem(r) == optional_word_problem(
            "runtime.declarativeUi.controls.variant"@,
            control.variant,
            variants_for(control.kind@),
        ),
{
    let field = "runtime.declarativeUi.controls.variant";
    let kind = control.kind.as_str();
    if same(kind, "button") || same(kind, "iconButton") || same(kind, "icon-button") {
        let allowed = ["default", "secondary", "outline", "ghost", "destructive", "link"];
        assert(str_views(allowed@) == variants_for(control.kind@));
        validate_optional_word(field, &control.variant, &allowed)
    } else if same(kind, "card") {
        let allowed = ["panel", "inset", "inspector"];
        assert(str_views(allowed@) == variants_for(control.kind@));
        validate_optional_word(field, &control.variant, &allowed)
    } else {
        let allowed = ["default"];
        assert(str_views(allowed@) == variants_for(control.kind@));
        validate_optional_word(field, &control.variant, &allowed)
    }
}

pub open spec fn tones() -> Seq<Seq<char>> {
    seq!["neutral"@, "accent"@, "success"@, "warning"@, "error"@, "info"@]
}

pub open spec fn sizes() -> Seq<Seq<char>> {
    seq!["small"@, "default"@, "large"@, "icon"@]
}

pub open spec fn gaps() -> Seq<Seq<char>> {
    seq!["none"@, "compact"@, "normal"@, "spacious"@]
}

/// The kinds of control that choose among options.
pub open spec fn choosing_kinds() -> Seq<Seq<char>> {
    seq!["select"@, "radioGroup"@, "radio-group"@, "segmentedControl"@, "segmented-control"@]
}

/// The kinds of control that contain others.
pub open spec fn container_kinds() -> Seq<Seq<char>> {
    seq!["stack"@, "row"@, "card"@, "toolbar"@]
}

pub open spec fn has_no_options(control: NativePluginDeclarativeUiControl) -> bool {
    match control.options {
        Some(options) => options@.len() == 0,
        None => true,
    }
}

/// The problem of the numbers and the initial value of a control.
pub open spec fn values_problem(control: NativePluginDeclarativeUiControl) -> Option<Seq<char>> {
    if control.min is Some && control.max is Some && control.max->0 < control.min->0 {
        Some("Runtime declarative UI control max must be greater than or equal to min"@)
    } else if control.step is Some && control.step->0 <= 0 {
        Some("Runtime declarative UI control step must be greater than zero"@)
    } else if control.kind@ == "password"@ && control.value is Some && !(json_view(
        control.value->0,
    ) is Null) {
        Some("Runtime declarative UI password controls cannot declare an initial value"@)
    } else {
        None
    }
}

fn validate_values(control: &NativePluginDeclarativeUiControl) -> (r: Result<(), String>)
    ensures
        problem(r) == values_problem(*control),
{
    if let (Some(min), Some(max)) = (control.min, control.max) {
        if max < min {
            return Err(
                "Runtime declarative UI control max must be greater than or equal to min".to_owned(),
            );
        }
    }
    if let Some(step) = control.step {
        if step <= 0 {
            return Err("Runtime declarative UI control step must be greater than zero".to_owned());
        }
    }
    if same(control.kind.as_str(), "password") {
        if let Some(value) = &control.value {
            if !value.is_null() {
                return Err(
                    "Runtime declarative UI password controls cannot declare an initial value".to_owned(),
                );
            }
        }
    }
    Ok(())
}

/// The problem of what a control of its kind must have or may not have.
pub open spec fn needs_problem(control: NativePluginDeclarativeUiControl) -> Option<Seq<char>> {
    let kind = control.kind@;
    if is_icon_button(kind) && lacks_text(control.icon) {
        Some("Runtime declarative UI iconButton requires icon"@)
    } else if is_icon_button(kind) && lacks_text(control.label) {
        Some("Runtime declarative UI iconButton requires label for its tooltip"@)
    } else if choosing_kinds().contains(kind) && has_no_options(control) {
        Some("Runtime declarative UI control kind \""@ + kind + "\" requires options"@)
    } else if control.children@.len() > 0 && !container_kinds().contains(kind) {
        Some("Runtime declarative UI control kind \""@ + kind + "\" cannot contain children"@)
    } else {
        None
    }
}

fn validate_needs(control: &NativePluginDeclarativeUiControl) -> (r: Result<(), String>)
    ensures
        problem(r) == needs_problem(*control),
{
    let kind = control.kind.as_str();
    let icon_button = same(kind, "iconButton") || same(kind, "icon-button");
    if icon_button && is_lacking(&control.icon) {
        return Err("Runtime declarative UI iconButton requires icon".to_owned());
    }
    if icon_button && is_lacking(&control.label) {
        return Err("Runtime declarative UI iconButton requires label for its tooltip".to_owned());
    }
    let choosing = ["select", "radioGroup", "radio-group", "segmentedControl", "segmented-control"];
    assert(str_views(choosing@) == choosing_kinds());
    let no_options = match &control.options {
        Some(options) => options.len() == 0,
        None => true,
    };
    if is_one_of(kind, &choosing) && no_options {
        return Err(
            concat3("Runtime declarative UI control kind \"", kind, "\" requires options"),
        );
    }
    let containers = ["stack", "row", "card", "toolbar"];
    assert(str_views(containers@) == container_kinds());
    if control.children.len() > 0 && !is_one_of(kind, &containers) {
        return Err(
            concat3("Runtime declarative UI control kind \"", kind, "\" cannot contain children"),
        );
    }
    Ok(())
}

pub open spec fn control_options_problem(
    control: NativePluginDeclarativeUiControl,
) -> Option<Seq<char>> {
    earlier(
        values_problem(control),
        earlier(
            optional_word_problem(
                "runtime.declarativeUi.controls.variant"@,
                control.variant,
                variants_for(control.kind@),
            ),
            earlier(
                optional_word_problem("runtime.declarativeUi.controls.tone"@, control.tone, tones()),
                earlier(
                    optional_word_problem(
                        "runtime.declarativeUi.controls.size"@,
                        control.size,
                        sizes(),
                    ),
                    earlier(
                        optional_word_problem(
                            "runtime.declarativeUi.controls.gap"@,
                            control.gap,
                            gaps(),
                        ),
                        needs_problem(control),
                    ),
                ),
            ),
        ),
    )
}

pub fn validate_native_plugin_declarative_control_options(
    control: &NativePluginDeclarativeUiControl,
) -> (r: Result<(), String>)
    ensures
        problem(r) == control_options_problem(*control),
{
    match validate_values(control) {
        Err(message) => return Err(message),
        Ok(()) => {},
    }
    match validate_variant(control) {
        Err(message) => return Err(message),
        Ok(()) => {},
    }
    let tone_words = ["neutral", "accent", "success", "warning", "error", "info"];
    assert(str_views(tone_words@) == tones());
    match validate_optional_word("runtime.declarativeUi.controls.tone", &control.tone, &tone_words) {
        Err(message) => return Err(message),
        Ok(()) => {},
    }
    let size_words = ["small", "default", "large", "icon"];
    assert(str_views(size_words@) == sizes());
    match validate_optional_word("runtime.declarativeUi.controls.size", &control.size, &size_words) {
        Err(message) => return Err(message),
        Ok(()) => {},
    }
    let gap_words = ["none", "compact", "normal", "spacious"];
    assert(str_views(gap_words@) == gaps());
    match validate_optional_word("runtime.declarativeUi.controls.gap", &control.gap, &gap_words) {
        Err(message) => return Err(message),
        Ok(()) => {},
    }
    validate_needs(control)
}

impl Checked for NativePluginDeclarativeUiOption {
    open spec fn problem_of(&self) -> Option<Seq<char>> {
        text_field_problem("runtime.declarativeUi.controls.options.label"@, self.label@)
    }

    fn check(&self) -> (r: Result<(), String>) {
        validate_manifest_text_field(
            "runtime.declarativeUi.controls.options.label",
            self.label.as_str(),
        )
    }
}

impl Checked for NativePluginDeclarativeUiColumn {
    open spec fn problem_of(&self) -> Option<Seq<char>> {
        earlier(
            text_field_problem("runtime.declarativeUi.controls.columnDefs.key"@, self.key@),
            earlier(
                text_field_problem("runtime.declarativeUi.controls.columnDefs.label"@, self.label@),
                optional_word_problem(
                    "runtime.declarativeUi.controls.columnDefs.style"@,
                    self.style,
                    seq!["primary"@, "meta"@, "mono"@],
                ),
            ),
        )
    }

    fn check(&self) -> (r: Result<(), String>) {
        match validate_manifest_text_field(
            "runtime.declarativeUi.controls.columnDefs.key",
            self.key.as_str(),
        ) {
            Err(message) => return Err(message),
            Ok(()) => {},
        }
        match validate_manifest_text_field(
            "runtime.declarativeUi.controls.columnDefs.label",
            self.label.as_str(),
        ) {
            Err(message) => return Err(message),
            Ok(()) => {},
        }
        let styles = ["primary", "meta", "mono"];
        assert(str_views(styles@) == seq!["primary"@, "meta"@, "mono"@]);
        validate_optional_word(
            "runtime.declarativeUi.controls.columnDefs.style",
            &self.style,
            &styles,
        )
    }
}

/// The problem of the options that a control lists.
pub open spec fn listed_options_problem(
    control: NativePluginDeclarativeUiControl,
) -> Option<Seq<char>> {
    match control.options {
        Some(options) => if options@.len() > NATIVE_PLUGIN_MAX_DECLARATIVE_UI_OPTIONS {
            limit_message(
                "Runtime declarative UI controls support at most "@,
                NATIVE_PLUGIN_MAX_DECLARATIVE_UI_OPTIONS as nat,
                " options"@,
            )
        } else {
            first_of(problems_of(options@))
        },
        None => None,
    }
}

/// The number of columns of a table: its column definitions count before its bare columns.
pub open spec fn column_count(control: NativePluginDeclarativeUiControl) -> nat {
    match control.column_defs {
        Some(defs) => defs@.len(),
        None => match control.columns {
            Some(columns) => columns@.len(),
            None => 0,
        },
    }
}

/// The problem of the rows and columns of a table.
pub open spec fn table_problem(control: NativePluginDeclarativeUiControl) -> Option<Seq<char>> {
    if control.rows is Some && control.rows->0@.len() > NATIVE_PLUGIN_MAX_DECLARATIVE_UI_ROWS {
        limit_message(
            "Runtime declarative UI controls support at most "@,
            NATIVE_PLUGIN_MAX_DECLARATIVE_UI_ROWS as nat,
            " rows"@,
        )
    } else if column_count(control) > NATIVE_PLUGIN_MAX_DECLARATIVE_UI_COLUMNS {
        limit_message(
            "Runtime declarative UI tables support at most "@,
            NATIVE_PLUGIN_MAX_DECLARATIVE_UI_COLUMNS as nat,
            " columns"@,
        )
    } else {
        match control.column_defs {
            Some(defs) => first_of(problems_of(defs@)),
            None => None,
        }
    }
}

fn validate_listed_options(control: &NativePluginDeclarativeUiControl) -> (r: Result<(), String>)
    ensures
        problem(r) == listed_options_problem(*control),
{
    match &control.options {
        Some(options) => {
            if options.len() > NATIVE_PLUGIN_MAX_DECLARATIVE_UI_OPTIONS {
                return limit_error(
                    "Runtime declarative UI controls support at most ",
                    NATIVE_PLUGIN_MAX_DECLARATIVE_UI_OPTIONS,
                    " options",
                );
            }
            check_all(options)
        },
        None => Ok(()),
    }
}

fn validate_table(control: &NativePluginDeclarativeUiControl) -> (r: Result<(), String>)
    ensures
        problem(r) == table_problem(*control),
{
    if let Some(rows) = &control.rows {
        if rows.len() > NATIVE_PLUGIN_MAX_DECLARATIVE_UI_ROWS {
            return limit_error(
                "Runtime declarative UI controls support at most ",
                NATIVE_PLUGIN_MAX_DECLARATIVE_UI_ROWS,
                " rows",
            );
        }
    }
    let columns: usize = match &control.column_defs {
        Some(defs) => defs.len(),
        None => match &control.columns {
            Some(columns) => columns.len(),
            None => 0,
        },
    };
    if columns > NATIVE_PLUGIN_MAX_DECLARATIVE_UI_COLUMNS {
        return limit_error(
            "Runtime declarative UI tables support at most ",
            NATIVE_PLUGIN_MAX_DECLARATIVE_UI_COLUMNS,
            " columns",
        );
    }
    match &control.column_defs {
        Some(defs) => check_all(defs),
        None => Ok(()),
    }
}

/// The problem of one control by itself, given how many controls came up to it and which ids they
/// have taken.
pub open spec fn control_problem(
    control: NativePluginDeclarativeUiControl,
    kinds: Seq<Seq<char>>,
    count: nat,
    ids: Seq<Seq<char>>,
) -> Option<Seq<char>> {
    if count > NATIVE_PLUGIN_MAX_DECLARATIVE_UI_CONTROLS {
        limit_message(
            "Runtime declarative UI supports at most "@,
            NATIVE_PLUGIN_MAX_DECLARATIVE_UI_CONTROLS as nat,
            " controls"@,
        )
    } else {
        earlier(
            one_of_problem("runtime.declarativeUi.controls.kind"@, control.kind@, kinds),
            if kinds_with_id().contains(control.kind@) && lacks_text(control.id) {
                Some(
                    "Runtime declarative UI control kind \""@ + control.kind@ + "\" requires id"@,
                )
            } else if control.id is Some && ids.contains(control.id->0@) {
                Some("Duplicate runtime declarative UI control id \""@ + control.id->0@ + "\""@)
            } else {
                earlier(
                    listed_options_problem(control),
                    earlier(table_problem(control), control_options_problem(control)),
                )
            },
        )
    }
}

/// The ids taken after a control.
pub open spec fn ids_after(
    control: NativePluginDeclarativeUiControl,
    ids: Seq<Seq<char>>,
) -> Seq<Seq<char>> {
    match control.id {
        Some(id) => ids.push(id@),
        None => ids,
    }
}

/// What a walk over controls comes to: a problem, or the number of controls seen and their ids.
pub enum ControlWalk {
    Refused(Seq<char>),
    Passed { count: nat, ids: Seq<Seq<char>> },
}

/// The walk over the first `n` of the controls of one container and over all that they contain.
pub open spec fn walk_first(
    controls: Seq<NativePluginDeclarativeUiControl>,
    n: nat,
    kinds: Seq<Seq<char>>,
    depth: nat,
    count: nat,
    ids: Seq<Seq<char>>,
) -> ControlWalk
    decreases controls, n,
    when n <= controls.len()
{
    if n == 0 {
        if depth > NATIVE_PLUGIN_MAX_DECLARATIVE_UI_DEPTH {
            ControlWalk::Refused(
                limit_message(
                    "Runtime declarative UI supports at most "@,
                    NATIVE_PLUGIN_MAX_DECLARATIVE_UI_DEPTH as nat,
                    " nested component levels"@,
                )->0,
            )
        } else if controls.len() > NATIVE_PLUGIN_MAX_DECLARATIVE_UI_CHILDREN {
            ControlWalk::Refused(
                limit_message(
                    "Runtime declarative UI containers support at most "@,
                    NATIVE_PLUGIN_MAX_DECLARATIVE_UI_CHILDREN as nat,
                    " direct children"@,
                )->0,
            )
        } else {
            ControlWalk::Passed { count, ids }
        }
    } else {
        match walk_first(controls, (n - 1) as nat, kinds, depth, count, ids) {
            ControlWalk::Refused(message) => ControlWalk::Refused(message),
            ControlWalk::Passed { count: before, ids: taken } => {
                let control = controls[n - 1];
                match control_problem(control, kinds, before + 1, taken) {
                    Some(message) => ControlWalk::Refused(message),
                    None => if control.children@.len() > 0 {
                        walk_first(
                            control.children@,
                            control.children@.len(),
                            kinds,
                            depth + 1,
                            before + 1,
                            ids_after(control, taken),
                        )
                    } else {
                        ControlWalk::Passed { count: before + 1, ids: ids_after(control, taken) }
                    },
                }
            },
        }
    }
}

/// The walk over all controls of one container.
pub open spec fn walk_controls(
    controls: Seq<NativePluginDeclarativeUiControl>,
    kinds: Seq<Seq<char>>,
    depth: nat,
    count: nat,
    ids: Seq<Seq<char>>,
) -> ControlWalk {
    walk_first(controls, controls.len(), kinds, depth, count, ids)
}

proof fn lemma_refusal_stays(
    controls: Seq<NativePluginDeclarativeUiControl>,
    n: nat,
    kinds: Seq<Seq<char>>,
    depth: nat,
    count: nat,
    ids: Seq<Seq<char>>,
)
    requires
        n <= controls.len(),
        walk_first(controls, n, kinds, depth, count, ids) is Refused,
    ensures
        walk_controls(controls, kinds, depth, count, ids) == walk_first(
            controls,
            n,
            kinds,
            depth,
            count,
            ids,
        ),
    decreases controls.len() - n,
{
    if n < controls.len() {
        assert(walk_first(controls, n + 1, kinds, depth, count, ids) == walk_first(
            controls,
            n,
            kinds,
            depth,
            count,
            ids,
        ));
        lemma_refusal_stays(controls, n + 1, kinds, depth, count, ids);
    }
}

fn holds_id(ids: &Vec<String>, id: &str) -> (r: bool)
    ensures
        r == texts(ids@).contains(id@),
{
    let mut i: usize = 0;
    while i < ids.len()
        invariant
            i <= ids.len(),
            forall|j: int| 0 <= j < i ==> ids@[j]@ != id@,
        decreases ids.len() - i,
    {
        if same(ids[i].as_str(), id) {
            assert(texts(ids@)[i as int] == id@);
            return true;
        }
        i = i + 1;
    }
    assert forall|j: int| 0 <= j < texts(ids@).len() implies texts(ids@)[j] != id@ by {
        assert(ids@[j]@ != id@);
    }
    false
}

fn validate_control(
    control: &NativePluginDeclarativeUiControl,
    kinds: &[&str],
    count: usize,
    ids: &Vec<String>,
) -> (r: Result<(), String>)
    ensures
        problem(r) == control_problem(*control, str_views(kinds@), count as nat, texts(ids@)),
{
    if count > NATIVE_PLUGIN_MAX_DECLARATIVE_UI_CONTROLS {
        return limit_error(
            "Runtime declarative UI supports at most ",
            NATIVE_PLUGIN_MAX_DECLARATIVE_UI_CONTROLS,
            " controls",
        );
    }
    let kind = control.kind.as_str();
    match validate_one_of("runtime.declarativeUi.controls.kind", kind, kinds) {
        Err(message) => return Err(message),
        Ok(()) => {},
    }
    if native_plugin_declarative_control_requires_id(kind) && is_lacking(&control.id) {
        return Err(concat3("Runtime declarative UI control kind \"", kind, "\" requires id"));
    }
    if let Some(id) = &control.id {
        if holds_id(ids, id.as_str()) {
            return Err(
                concat3("Duplicate runtime declarative UI control id \"", id.as_str(), "\""),
            );
        }
    }
    match validate_listed_options(control) {
        Err(message) => return Err(message),
        Ok(()) => {},
    }
    match validate_table(control) {
        Err(message) => return Err(message),
        Ok(()) => {},
    }
    validate_native_plugin_declarative_control_options(control)
}

/// Checks the controls of one container and all that they contain. The count and the ids run on
/// through the whole walk; after a refusal they are what the walk had reached.
pub fn validate_native_plugin_declarative_controls(
    controls: &Vec<NativePluginDeclarativeUiControl>,
    kinds: &[&str],
    depth: usize,
    control_count: &mut usize,
    control_ids: &mut Vec<String>,
) -> (r: Result<(), String>)
    requires
        *old(control_count) <= NATIVE_PLUGIN_MAX_DECLARATIVE_UI_CONTROLS,
    ensures
        match walk_controls(
            controls@,
            str_views(kinds@),
            depth as nat,
            *old(control_count) as nat,
            texts(old(control_ids)@),
        ) {
            ControlWalk::Refused(message) => problem(r) == Some(message),
            ControlWalk::Passed { count, ids } => r is Ok && *final(control_count) == count
                && texts(final(control_ids)@) == ids && count
                <= NATIVE_PLUGIN_MAX_DECLARATIVE_UI_CONTROLS,
        },
    decreases controls@,
{
    let ghost kind_views = str_views(kinds@);
    let ghost count0 = *control_count as nat;
    let ghost ids0 = texts(control_ids@);
    if depth > NATIVE_PLUGIN_MAX_DECLARATIVE_UI_DEPTH {
        proof {
            lemma_refusal_stays(controls@, 0, kind_views, depth as nat, count0, ids0);
        }
        return limit_error(
            "Runtime declarative UI supports at most ",
            NATIVE_PLUGIN_MAX_DECLARATIVE_UI_DEPTH,
            " nested component levels",
        );
    }
    if controls.len() > NATIVE_PLUGIN_MAX_DECLARATIVE_UI_CHILDREN {
        proof {
            lemma_refusal_stays(controls@, 0, kind_views, depth as nat, count0, ids0);
        }
        return limit_error(
            "Runtime declarative UI containers support at most ",
            NATIVE_PLUGIN_MAX_DECLARATIVE_UI_CHILDREN,
            " direct children",
        );
    }
    let mut i: usize = 0;
    while i < controls.len()
        invariant
            i <= controls.len(),
            depth <= NATIVE_PLUGIN_MAX_DECLARATIVE_UI_DEPTH,
            *control_count <= NATIVE_PLUGIN_MAX_DECLARATIVE_UI_CONTROLS,
            kind_views == str_views(kinds@),
            walk_first(controls@, i as nat, kind_views, depth as nat, count0, ids0) == (
            ControlWalk::Passed { count: *control_count as nat, ids: texts(control_ids@) }),
            count0 == *old(control_count),
            ids0 == texts(old(control_ids)@),
        decreases controls.len() - i,
    {
        let control = &controls[i];
        *control_count = *control_count + 1;
        let ghost taken = texts(control_ids@);
        match validate_control(control, kinds, *control_count, control_ids) {
            Err(message) => {
                proof {
                    lemma_refusal_stays(controls@, (i + 1) as nat, kind_views, depth as nat, count0, ids0);
                }
                return Err(message);
            },
            Ok(()) => {},
        }
        if let Some(id) = &control.id {
            let ghost before = control_ids@;
            control_ids.push(id.clone());
            assert(texts(control_ids@) == texts(before).push(id@));
        }
        assert(texts(control_ids@) == ids_after(*control, taken));
        if control.children.len() > 0 {
            proof {
                assert(decreases_to!(controls@ => controls@[i as int]));
                assert(decreases_to!(controls@[i as int] => controls@[i as int].children));
                assert(decreases_to!(controls@[i as int].children => controls@[i as int].children@));
            }
            match validate_native_plugin_declarative_controls(
                &control.children,
                kinds,
                depth + 1,
                control_count,
                control_ids,
            ) {
                Err(message) => {
                    proof {
                        lemma_refusal_stays(
                            controls@,
                            (i + 1) as nat,
                            kind_views,
                            depth as nat,
                            count0,
                            ids0,
                        );
                    }
                    return Err(message);
                },
                Ok(()) => {},
            }
        }
        i = i + 1;
    }
    Ok(())
}

/// Whether an earlier section has the id of section `i`.
pub open spec fn repeats_section_id(
    sections: Seq<NativePluginDeclarativeUiSection>,
    i: int,
) -> bool {
    exists|j: int| 0 <= j < i && (#[trigger] sections[j]).id@ == sections[i].id@
}

pub open spec fn section_id_problem(
    sections: Seq<NativePluginDeclarativeUiSection>,
    i: int,
) -> Option<Seq<char>> {
    earlier(
        text_field_problem("runtime.declarativeUi.sections.id"@, sections[i].id@),
        if sections[i].id@ == "root"@ {
            Some("Runtime declarative UI section id \"root\" is reserved by the host"@)
        } else if repeats_section_id(sections, i) {
            Some("Duplicate runtime declarative UI section id \""@ + sections[i].id@ + "\""@)
        } else {
            None
        },
    )
}

/// The walk over the first `n` sections: each has ids of its own, the count runs on.
pub open spec fn walk_sections(
    sections: Seq<NativePluginDeclarativeUiSection>,
    n: nat,
    kinds: Seq<Seq<char>>,
) -> ControlWalk
    decreases n,
{
    if n == 0 {
        ControlWalk::Passed { count: 0, ids: Seq::empty() }
    } else {
        match walk_sections(sections, (n - 1) as nat, kinds) {
            ControlWalk::Refused(message) => ControlWalk::Refused(message),
            ControlWalk::Passed { count, ids } => match section_id_problem(sections, n - 1) {
                Some(message) => ControlWalk::Refused(message),
                None => walk_controls(sections[n - 1].controls@, kinds, 1, count, Seq::empty()),
            },
        }
    }
}

proof fn lemma_section_refusal_stays(
    sections: Seq<NativePluginDeclarativeUiSection>,
    n: nat,
    kinds: Seq<Seq<char>>,
)
    requires
        n <= sections.len(),
        walk_sections(sections, n, kinds) is Refused,
    ensures
        walk_sections(sections, sections.len(), kinds) == walk_sections(sections, n, kinds),
    decreases sections.len() - n,
{
    if n < sections.len() {
        assert(walk_sections(sections, n + 1, kinds) == walk_sections(sections, n, kinds));
        lemma_section_refusal_stays(sections, n + 1, kinds);
    }
}

/// The first rule that a form breaks. `encoded` is the size of its JSON form, or why it has none.
pub open spec fn schema_problem(
    schema: NativePluginDeclarativeUiSchema,
    encoded: Result<usize, String>,
    kinds: Seq<Seq<char>>,
) -> Option<Seq<char>> {
    match encoded {
        Err(error) => Some("Runtime declarative UI schema cannot be encoded: "@ + error@),
        Ok(size) => if size > NATIVE_PLUGIN_MAX_DECLARATIVE_UI_BYTES {
            limit_message(
                "Runtime declarative UI schema exceeds "@,
                NATIVE_PLUGIN_MAX_DECLARATIVE_UI_BYTES as nat,
                " bytes"@,
            )
        } else if schema.component_version != NATIVE_PLUGIN_DECLARATIVE_UI_COMPONENT_VERSION {
            limit_message(
                "Runtime declarative UI componentVersion must be "@,
                NATIVE_PLUGIN_DECLARATIVE_UI_COMPONENT_VERSION as nat,
                ""@,
            )
        } else {
            earlier(
                one_of_problem("runtime.declarativeUi.kind"@, schema.kind@, seq!["form"@]),
                if schema.sections@.len() == 0 && schema.controls@.len() == 0 {
                    Some("Runtime declarative UI schema requires sections or controls"@)
                } else {
                    match walk_sections(schema.sections@, schema.sections@.len(), kinds) {
                        ControlWalk::Refused(message) => Some(message),
                        ControlWalk::Passed { count, ids } => match walk_controls(
                            schema.controls@,
                            kinds,
                            1,
                            count,
                            Seq::empty(),
                        ) {
                            ControlWalk::Refused(message) => Some(message),
                            ControlWalk::Passed { .. } => None,
                        },
                    }
                },
            )
        },
    }
}

fn validate_section_id(sections: &Vec<NativePluginDeclarativeUiSection>, i: usize) -> (r: Result<
    (),
    String,
>)
    requires
        i < sections.len(),
    ensures
        problem(r) == section_id_problem(sections@, i as int),
{
    let id = sections[i].id.as_str();
    match validate_manifest_text_field("runtime.declarativeUi.sections.id", id) {
        Err(message) => return Err(message),
        Ok(()) => {},
    }
    if same(id, "root") {
        return Err(
            "Runtime declarative UI section id \"root\" is reserved by the host".to_owned(),
        );
    }
    let mut j: usize = 0;
    while j < i
        invariant
            j <= i < sections.len(),
            id@ == sections@[i as int].id@,
            text_field_problem("runtime.declarativeUi.sections.id"@, id@) is None,
            id@ != "root"@,
            forall|k: int| 0 <= k < j ==> (#[trigger] sections@[k]).id@ != id@,
        decreases i - j,
    {
        if same(sections[j].id.as_str(), id) {
            assert(repeats_section_id(sections@, i as int));
            return Err(concat3("Duplicate runtime declarative UI section id \"", id, "\""));
        }
        j = j + 1;
    }
    Ok(())
}

fn validate_sections(
    sections: &Vec<NativePluginDeclarativeUiSection>,
    kinds: &[&str],
    count: &mut usize,
) -> (r: Result<(), String>)
    requires
        *old(count) == 0,
    ensures
        match walk_sections(sections@, sections@.len(), str_views(kinds@)) {
            ControlWalk::Refused(message) => problem(r) == Some(message),
            ControlWalk::Passed { count: total, ids } => r is Ok && *final(count) == total
                && total <= NATIVE_PLUGIN_MAX_DECLARATIVE_UI_CONTROLS,
        },
{
    let ghost kind_views = str_views(kinds@);
    let mut i: usize = 0;
    while i < sections.len()
        invariant
            i <= sections.len(),
            *count <= NATIVE_PLUGIN_MAX_DECLARATIVE_UI_CONTROLS,
            kind_views == str_views(kinds@),
            walk_sections(sections@, i as nat, kind_views) matches ControlWalk::Passed {
                count: total,
                ids,
            } && total == *count,
        decreases sections.len() - i,
    {
        match validate_section_id(sections, i) {
            Err(message) => {
                proof {
                    lemma_section_refusal_stays(sections@, (i + 1) as nat, kind_views);
                }
                return Err(message);
            },
            Ok(()) => {},
        }
        let mut ids: Vec<String> = Vec::new();
        assert(texts(ids@) == Seq::<Seq<char>>::empty());
        match validate_native_plugin_declarative_controls(
            &sections[i].controls,
            kinds,
            1,
            count,
            &mut ids,
        ) {
            Err(message) => {
                proof {
                    lemma_section_refusal_stays(sections@, (i + 1) as nat, kind_views);
                }
                return Err(message);
            },
            Ok(()) => {},
        }
        i = i + 1;
    }
    Ok(())
}

pub fn validate_native_plugin_declarative_ui_schema(
    schema: &NativePluginDeclarativeUiSchema,
    encoded: Result<usize, String>,
    kinds: &[&str],
) -> (r: Result<(), String>)
    ensures
        problem(r) == schema_problem(*schema, encoded, str_views(kinds@)),
{
    match encoded {
        Err(error) => return Err(
            concat2("Runtime declarative UI schema cannot be encoded: ", error.as_str()),
        ),
        Ok(size) => {
            if size > NATIVE_PLUGIN_MAX_DECLARATIVE_UI_BYTES {
                return limit_error(
                    "Runtime declarative UI schema exceeds ",
                    NATIVE_PLUGIN_MAX_DECLARATIVE_UI_BYTES,
                    " bytes",
                );
            }
        },
    }
    if schema.component_version != NATIVE_PLUGIN_DECLARATIVE_UI_COMPONENT_VERSION {
        return limit_error(
            "Runtime declarative UI componentVersion must be ",
            NATIVE_PLUGIN_DECLARATIVE_UI_COMPONENT_VERSION as usize,
            "",
        );
    }
    let forms = ["form"];
    assert(str_views(forms@) == seq!["form"@]);
    match validate_one_of("runtime.declarativeUi.kind", schema.kind.as_str(), &forms) {
        Err(message) => return Err(message),
        Ok(()) => {},
    }
    if schema.sections.len() == 0 && schema.controls.len() == 0 {
        return Err("Runtime declarative UI schema requires sections or controls".to_owned());
    }
    let mut count: usize = 0;
    match validate_sections(&schema.sections, kinds, &mut count) {
        Err(message) => return Err(message),
        Ok(()) => {},
    }
    let mut ids: Vec<String> = Vec::new();
    assert(texts(ids@) == Seq::<Seq<char>>::empty());
    validate_native_plugin_declarative_controls(&schema.controls, kinds, 1, &mut count, &mut ids)
}

/// The words that a form may hold, and the limits that it keeps.
pub proof fn law_words_and_limits_of_forms()
    ensures
        kinds_with_id().len() == 13,
        kinds_with_id()[0] == "text"@,
        kinds_with_id()[1] == "password"@,
        kinds_with_id()[2] == "number"@,
        kinds_with_id()[3] == "checkbox"@,
        kinds_with_id()[4] == "select"@,
        kinds_with_id()[5] == "radioGroup"@,
        kinds_with_id()[6] == "radio-group"@,
        kinds_with_id()[7] == "slider"@,
        kinds_with_id()[8] == "segmentedControl"@,
        kinds_with_id()[9] == "segmented-control"@,
        kinds_with_id()[10] == "button"@,
        kinds_with_id()[11] == "iconButton"@,
        kinds_with_id()[12] == "icon-button"@,
        tones().len() == 6,
        tones()[0] == "neutral"@,
        tones()[1] == "accent"@,
        tones()[2] == "success"@,
        tones()[3] == "warning"@,
        tones()[4] == "error"@,
        tones()[5] == "info"@,
        sizes().len() == 4,
        sizes()[0] == "small"@,
        sizes()[1] == "default"@,
        sizes()[2] == "large"@,
        sizes()[3] == "icon"@,
        gaps().len() == 4,
        gaps()[0] == "none"@,
        gaps()[1] == "compact"@,
        gaps()[2] == "normal"@,
        gaps()[3] == "spacious"@,
        choosing_kinds().len() == 5,
        choosing_kinds()[0] == "select"@,
        choosing_kinds()[1] == "radioGroup"@,
        choosing_kinds()[2] == "radio-group"@,
        choosing_kinds()[3] == "segmentedControl"@,
        choosing_kinds()[4] == "segmented-control"@,
        container_kinds().len() == 4,
        container_kinds()[0] == "stack"@,
        container_kinds()[1] == "row"@,
        container_kinds()[2] == "card"@,
        container_kinds()[3] == "toolbar"@,
        NATIVE_PLUGIN_DECLARATIVE_UI_COMPONENT_VERSION == 1,
        NATIVE_PLUGIN_MAX_DECLARATIVE_UI_DEPTH == 8,
        NATIVE_PLUGIN_MAX_DECLARATIVE_UI_CONTROLS == 256,
        NATIVE_PLUGIN_MAX_DECLARATIVE_UI_CHILDREN == 64,
        NATIVE_PLUGIN_MAX_DECLARATIVE_UI_OPTIONS == 128,
        NATIVE_PLUGIN_MAX_DECLARATIVE_UI_ROWS == 2000,
        NATIVE_PLUGIN_MAX_DECLARATIVE_UI_COLUMNS == 64,
        NATIVE_PLUGIN_MAX_DECLARATIVE_UI_BYTES == 2097152,
{
}

/// Buttons and cards come in variants of their own, everything else in one.
pub proof fn law_variants_belong_to_kinds(kind: Seq<char>)
    ensures
        kind == "button"@ || kind == "iconButton"@ || kind == "icon-button"@ ==> variants_for(kind)
            == seq!["default"@, "secondary"@, "outline"@, "ghost"@, "destructive"@, "link"@],
        variants_for("card"@) == seq!["panel"@, "inset"@, "inspector"@],
        kind != "button"@ && kind != "iconButton"@ && kind != "icon-button"@ && kind != "card"@
            ==> variants_for(kind) == seq!["default"@],
{
    reveal_strlit("button");
    reveal_strlit("iconButton");
    reveal_strlit("icon-button");
    reveal_strlit("card");
    assert("button"@.len() == 6);
    assert("iconButton"@.len() == 10);
    assert("icon-button"@.len() == 11);
    assert("card"@.len() == 4);
}

/// A button can be pressed exactly where it has an id and is neither disabled nor loading.
pub proof fn law_pressable_buttons(control: NativePluginDeclarativeUiControl)
    ensures
        is_actionable(control) <==> (control.kind@ == "button"@ || control.kind@ == "iconButton"@
            || control.kind@ == "icon-button"@) && !control.disabled && !control.loading
            && control.id is Some,
{
}

/// The numbers of a control make sense, and a password comes without a value.
pub proof fn law_accepted_values_make_sense(control: NativePluginDeclarativeUiControl)
    ensures
        values_problem(control) is None <==> !(control.min is Some && control.max is Some
            && control.max->0 < control.min->0) && !(control.step is Some && control.step->0 <= 0)
            && !(control.kind@ == "password"@ && control.value is Some && !(json_view(
            control.value->0,
        ) is Null)),
        control.min is Some && control.max is Some && control.max->0 < control.min->0
            ==> values_problem(control) == Some(
            "Runtime declarative UI control max must be greater than or equal to min"@,
        ),
{
}

/// What a control of its kind must have: an icon button its icon and its label, a choice its
/// options; and only a container may contain anything.
pub proof fn law_accepted_controls_have_what_they_need(control: NativePluginDeclarativeUiControl)
    ensures
        needs_problem(control) is None <==> ((control.kind@ == "iconButton"@ || control.kind@
            == "icon-button"@) ==> (control.icon matches Some(icon) && icon@.len() > 0) && (
        control.label matches Some(label) && label@.len() > 0)) && (choosing_kinds().contains(
            control.kind@,
        ) ==> (control.options matches Some(options) && options@.len() > 0)) && (
        control.children@.len() > 0 ==> container_kinds().contains(control.kind@)),
{
}

/// All optional words of an accepted control are known ones.
pub proof fn law_accepted_options_are_known(control: NativePluginDeclarativeUiControl)
    ensures
        control_options_problem(control) is None <==> values_problem(control) is None && (
        control.variant matches Some(word) ==> variants_for(control.kind@).contains(word@)) && (
        control.tone matches Some(word) ==> tones().contains(word@)) && (
        control.size matches Some(word) ==> sizes().contains(word@)) && (
        control.gap matches Some(word) ==> gaps().contains(word@)) && needs_problem(control)
            is None,
{
}

/// Lists keep their limits: 128 options, 2000 rows and 64 columns; definitions of columns count
/// before bare ones.
pub proof fn law_lists_of_controls_keep_limits(control: NativePluginDeclarativeUiControl)
    ensures
        listed_options_problem(control) is None ==> (control.options matches Some(options)
            ==> options@.len() <= 128 && first_of(problems_of(options@)) is None),
        control.options is None ==> listed_options_problem(control) is None,
        table_problem(control) is None ==> (control.rows matches Some(rows) ==> rows@.len() <= 2000)
            && column_count(control) <= 64,
        control.column_defs matches Some(defs) ==> column_count(control) == defs@.len(),
        control.column_defs is None ==> (control.columns matches Some(columns) ==> column_count(
            control,
        ) == columns@.len()),
        control.column_defs is None && control.columns is None ==> column_count(control) == 0,
{
}

/// A control is accepted exactly where it is one of at most 256, its kind is known, it has an id
/// where its kind needs one, nobody took that id, and all it lists is accepted.
pub proof fn law_accepted_controls(
    control: NativePluginDeclarativeUiControl,
    kinds: Seq<Seq<char>>,
    count: nat,
    ids: Seq<Seq<char>>,
)
    ensures
        control_problem(control, kinds, count, ids) is None <==> count <= 256 && kinds.contains(
            control.kind@,
        ) && !(kinds_with_id().contains(control.kind@) && !(control.id matches Some(id)
            && id@.len() > 0)) && (control.id matches Some(id) ==> !ids.contains(id@))
            && listed_options_problem(control) is None && table_problem(control) is None
            && control_options_problem(control) is None,
        control.id matches Some(id) ==> ids_after(control, ids) == ids.push(id@),
        control.id is None ==> ids_after(control, ids) == ids,
{
}

/// Containers hold at most 64 controls and nest eight deep.
pub proof fn law_containers_keep_limits(
    controls: Seq<NativePluginDeclarativeUiControl>,
    kinds: Seq<Seq<char>>,
    depth: nat,
    count: nat,
    ids: Seq<Seq<char>>,
)
    ensures
        walk_first(controls, 0, kinds, depth, count, ids) is Passed <==> depth <= 8
            && controls.len() <= 64,
        walk_controls(controls, kinds, depth, count, ids) is Passed ==> depth <= 8
            && controls.len() <= 64,
        walk_controls(controls, kinds, depth, count, ids) matches ControlWalk::Passed {
            count: total,
            ids: taken,
        } ==> total >= count + controls.len() && (controls.len() > 0 ==> total <= 256),
{
    lemma_walk_counts(controls, controls.len(), kinds, depth, count, ids);
}

proof fn lemma_walk_counts(
    controls: Seq<NativePluginDeclarativeUiControl>,
    n: nat,
    kinds: Seq<Seq<char>>,
    depth: nat,
    count: nat,
    ids: Seq<Seq<char>>,
)
    requires
        n <= controls.len(),
    ensures
        walk_first(controls, n, kinds, depth, count, ids) is Passed ==> depth <= 8
            && controls.len() <= 64,
        walk_first(controls, n, kinds, depth, count, ids) matches ControlWalk::Passed {
            count: total,
            ids: taken,
        } ==> total >= count + n && (n > 0 ==> total <= 256),
    decreases controls, n,
{
    if n > 0 {
        lemma_walk_counts(controls, (n - 1) as nat, kinds, depth, count, ids);
        if let ControlWalk::Passed { count: before, ids: taken } = walk_first(
            controls,
            (n - 1) as nat,
            kinds,
            depth,
            count,
            ids,
        ) {
            let control = controls[n - 1];
            if control.children@.len() > 0 {
                lemma_walk_counts(
                    control.children@,
                    control.children@.len(),
                    kinds,
                    depth + 1,
                    before + 1,
                    ids_after(control, taken),
                );
            }
        }
    }
}

/// A section has an id of its own, which is not blank and not the host's.
pub proof fn law_accepted_sections_have_ids(
    sections: Seq<NativePluginDeclarativeUiSection>,
    i: int,
    j: int,
)
    ensures
        section_id_problem(sections, i) is None ==> trimmed_text(sections[i].id@)
            && sections[i].id@ != "root"@ && (0 <= j < i ==> sections[j].id@ != sections[i].id@),
        trimmed_text(sections[i].id@) && sections[i].id@ != "root"@ && (forall|k: int|
            0 <= k < i ==> (#[trigger] sections[k]).id@ != sections[i].id@) ==> section_id_problem(
            sections,
            i,
        ) is None,
{
}

/// Whether a text is not blank.
pub open spec fn trimmed_text(text: Seq<char>) -> bool {
    crate::text::trimmed(text).len() > 0
}

/// A form is accepted only where it could be written, has at most two megabytes, is of the first
/// version and a form, and holds something.
pub proof fn law_accepted_forms(
    schema: NativePluginDeclarativeUiSchema,
    size: usize,
    kinds: Seq<Seq<char>>,
    error: String,
)
    ensures
        schema_problem(schema, Ok(size), kinds) is None ==> size <= 2 * 1024 * 1024
            && schema.component_version == 1 && schema.kind@ == "form"@ && (
        schema.sections@.len() > 0 || schema.controls@.len() > 0) && walk_sections(
            schema.sections@,
            schema.sections@.len(),
            kinds,
        ) is Passed,
        schema_problem(schema, Err(error), kinds) == Some(
            "Runtime declarative UI schema cannot be encoded: "@ + error@,
        ),
        size > 2 * 1024 * 1024 ==> schema_problem(schema, Ok(size), kinds) is Some,
        schema.component_version != 1 ==> schema_problem(schema, Ok(size), kinds) is Some,
{
}

/// Sections are walked in order; each starts without taken ids, and the count runs on.
pub proof fn law_sections_are_walked_in_order(
    sections: Seq<NativePluginDeclarativeUiSection>,
    n: nat,
    kinds: Seq<Seq<char>>,
    count: nat,
    ids: Seq<Seq<char>>,
)
    requires
        n < sections.len(),
        walk_sections(sections, n, kinds) == (ControlWalk::Passed { count, ids }),
        section_id_problem(sections, n as int) is None,
    ensures
        walk_sections(sections, n + 1, kinds) == walk_controls(
            sections[n as int].controls@,
            kinds,
            1,
            count,
            Seq::empty(),
        ),
        walk_sections(sections, 0, kinds) == (ControlWalk::Passed {
            count: 0,
            ids: Seq::empty(),
        }),
{
}

} // verus!
