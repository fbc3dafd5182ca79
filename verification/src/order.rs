//! Three-way comparison and its lexicographic extension to sequences.

use vstd::prelude::*;

verus! {

/// How one value stands to another.
#[derive(Clone, Copy, Debug, PartialEq, Eq, Structural)]
pub enum Order {
    Less,
    Equal,
    Greater,
}

/// The same comparison with the sides exchanged.
pub open spec fn flipped(order: Order) -> Order {
    match order {
        Order::Less => Order::Greater,
        Order::Equal => Order::Equal,
        Order::Greater => Order::Less,
    }
}

pub open spec fn int_order(a: int, b: int) -> Order {
    if a < b {
        Order::Less
    } else if a > b {
        Order::Greater
    } else {
        Order::Equal
    }
}

pub fn compare_numbers(a: u64, b: u64) -> (r: Order)
    ensures
        r == int_order(a as int, b as int),
{
    if a < b {
        Order::Less
    } else if a > b {
        Order::Greater
    } else {
        Order::Equal
    }
}

/// The first difference decides; of two sequences without one the shorter comes first.
pub open spec fn lex_order<T>(a: Seq<T>, b: Seq<T>, rel: spec_fn(T, T) -> Order) -> Order
    decreases a.len(),
{
    if a.len() == 0 {
        if b.len() == 0 {
            Order::Equal
        } else {
            Order::Less
        }
    } else if b.len() == 0 {
        Order::Greater
    } else if rel(a[0], b[0]) != Order::Equal {
        rel(a[0], b[0])
    } else {
        lex_order(a.drop_first(), b.drop_first(), rel)
    }
}

/// A comparison that exchanges with its sides and is transitive.
pub open spec fn is_order<T>(rel: spec_fn(T, T) -> Order) -> bool {
    &&& forall|x: T, y: T| #[trigger] rel(x, y) == flipped(rel(y, x))
    &&& forall|x: T, y: T, z: T|
        #[trigger] rel(x, y) != Order::Greater && #[trigger] rel(y, z) != Order::Greater ==> rel(x, z)
            != Order::Greater
}

pub proof fn lemma_lex_flips<T>(a: Seq<T>, b: Seq<T>, rel: spec_fn(T, T) -> Order)
    requires
        is_order(rel),
    ensures
        lex_order(a, b, rel) == flipped(lex_order(b, a, rel)),
    decreases a.len(),
{
    if a.len() > 0 && b.len() > 0 {
        assert(rel(a[0], b[0]) == flipped(rel(b[0], a[0])));
        lemma_lex_flips(a.drop_first(), b.drop_first(), rel);
    }
}

pub proof fn lemma_lex_transitive<T>(
    a: Seq<T>,
    b: Seq<T>,
    c: Seq<T>,
    rel: spec_fn(T, T) -> Order,
)
    requires
        is_order(rel),
        lex_order(a, b, rel) != Order::Greater,
        lex_order(b, c, rel) != Order::Greater,
    ensures
        lex_order(a, c, rel) != Order::Greater,
    decreases a.len(),
{
    if a.len() > 0 && b.len() > 0 && c.len() > 0 {
        let (x, y, z) = (a[0], b[0], c[0]);
        assert(rel(x, y) != Order::Greater && rel(y, z) != Order::Greater);
        assert(rel(x, z) != Order::Greater);
        assert(rel(x, z) == flipped(rel(z, x)));
        assert(rel(x, y) == flipped(rel(y, x)));
        assert(rel(y, z) == flipped(rel(z, y)));
        if rel(x, z) == Order::Equal {
            assert(rel(z, x) != Order::Greater);
            assert(rel(y, x) != Order::Greater);
            assert(rel(z, y) != Order::Greater);
            lemma_lex_transitive(a.drop_first(), b.drop_first(), c.drop_first(), rel);
        }
    }
}

pub open spec fn by_code() -> spec_fn(char, char) -> Order {
    |x: char, y: char| int_order(x as int, y as int)
}

/// The order of strings: by the codes of their characters, which is also the order of their bytes.
pub open spec fn text_order(a: Seq<char>, b: Seq<char>) -> Order {
    lex_order(a, b, by_code())
}

/// `str` comparison.
pub fn compare_text(a: &str, b: &str) -> (r: Order)
    ensures
        r == text_order(a@, b@),
{
    let x = crate::text::chars_of(a);
    let y = crate::text::chars_of(b);
    let mut i: usize = 0;
    assert(a@.skip(0) == a@);
    assert(b@.skip(0) == b@);
    while i < x.len() && i < y.len()
        invariant
            i <= x.len(),
            i <= y.len(),
            x@ == a@,
            y@ == b@,
            text_order(a@.skip(i as int), b@.skip(i as int)) == text_order(a@, b@),
        decreases x.len() - i,
    {
        assert(a@.skip(i as int)[0] == x@[i as int]);
        assert(b@.skip(i as int)[0] == y@[i as int]);
        assert(a@.skip(i as int).drop_first() == a@.skip(i + 1));
        assert(b@.skip(i as int).drop_first() == b@.skip(i + 1));
        if x[i] < y[i] {
            return Order::Less;
        }
        if x[i] > y[i] {
            return Order::Greater;
        }
        i = i + 1;
    }
    if i < x.len() {
        Order::Greater
    } else if i < y.len() {
        Order::Less
    } else {
        Order::Equal
    }
}

/// The smaller number comes first.
pub proof fn law_numbers_are_ordered(a: int, b: int)
    ensures
        a < b <==> int_order(a, b) == Order::Less,
        a == b <==> int_order(a, b) == Order::Equal,
        a > b <==> int_order(a, b) == Order::Greater,
        flipped(int_order(a, b)) == int_order(b, a),
{
}

/// Of two texts that agree up to a place, the one with the smaller character there comes first,
/// and so does the one that ends there.
pub proof fn law_texts_are_ordered_by_their_first_difference(
    head: Seq<char>,
    a: Seq<char>,
    b: Seq<char>,
)
    requires
        a.len() > 0 && b.len() > 0 ==> a[0] != b[0],
    ensures
        a.len() > 0 && b.len() > 0 && (a[0] as int) < (b[0] as int) ==> text_order(
            head + a,
            head + b,
        ) == Order::Less,
        a.len() > 0 && b.len() > 0 && (a[0] as int) > (b[0] as int) ==> text_order(
            head + a,
            head + b,
        ) == Order::Greater,
        a.len() == 0 && b.len() > 0 ==> text_order(head + a, head + b) == Order::Less,
        a.len() > 0 && b.len() == 0 ==> text_order(head + a, head + b) == Order::Greater,
        a.len() == 0 && b.len() == 0 ==> text_order(head + a, head + b) == Order::Equal,
    decreases head.len(),
{
    if head.len() == 0 {
        assert(head + a =~= a);
        assert(head + b =~= b);
        if a.len() > 0 && b.len() > 0 {
            assert(by_code()(a[0], b[0]) == int_order(a[0] as int, b[0] as int));
        }
    } else {
        law_texts_are_ordered_by_their_first_difference(head.drop_first(), a, b);
        assert((head + a).drop_first() =~= head.drop_first() + a);
        assert((head + b).drop_first() =~= head.drop_first() + b);
        assert((head + a)[0] == head[0] && (head + b)[0] == head[0]);
    }
}

} // verus!
