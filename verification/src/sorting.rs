//! The order of file names: character by character, as a directory listing
//! sorts them. Names made from date-times with a year of four digits stand in
//! this order exactly as their date-times follow each other.

use crate::naming::{name_suffix, NamingView};
use crate::timestamp::{digit, two_digits, year_text, Timestamp};
use vstd::prelude::*;

verus! {

/// Whether `a` comes before `b` when the two are compared character by
/// character, a text coming after each of its beginnings.
pub open spec fn lex_less(a: Seq<char>, b: Seq<char>) -> bool
    decreases a.len(),
{
    if b.len() == 0 {
        false
    } else if a.len() == 0 {
        true
    } else if a[0] != b[0] {
        (a[0] as u32) < (b[0] as u32)
    } else {
        lex_less(a.drop_first(), b.drop_first())
    }
}

/// The texts of a list of strings.
pub open spec fn texts(names: Seq<String>) -> Seq<Seq<char>> {
    Seq::new(names.len(), |i: int| names[i]@)
}

/// Whether no text of the list comes before one that stands earlier in it.
pub open spec fn ascending(list: Seq<Seq<char>>) -> bool {
    forall|i: int, j: int| 0 <= i < j < list.len() ==> !lex_less(list[j], list[i])
}

/// No text comes before itself.
pub proof fn lemma_lex_irreflexive(a: Seq<char>)
    ensures
        !lex_less(a, a),
    decreases a.len(),
{
    if a.len() > 0 {
        lemma_lex_irreflexive(a.drop_first());
    }
}

/// What comes before a text comes before all that the text comes before.
pub proof fn lemma_lex_transitive(a: Seq<char>, b: Seq<char>, c: Seq<char>)
    requires
        lex_less(a, b),
        lex_less(b, c),
    ensures
        lex_less(a, c),
    decreases a.len(),
{
    if a.len() > 0 && a[0] == b[0] && b[0] == c[0] {
        lemma_lex_transitive(a.drop_first(), b.drop_first(), c.drop_first());
    }
}

/// Texts that begin with parts of one length are ordered by those parts, and
/// by what follows where the parts are the same.
pub proof fn lemma_lex_concat(p: Seq<char>, q: Seq<char>, s: Seq<char>, t: Seq<char>)
    requires
        p.len() == q.len(),
    ensures
        lex_less(p + s, q + t) == if p == q {
            lex_less(s, t)
        } else {
            lex_less(p, q)
        },
    decreases p.len(),
{
    if p.len() == 0 {
        assert(p =~= q);
        assert(p + s =~= s);
        assert(q + t =~= t);
    } else {
        assert((p + s).drop_first() =~= p.drop_first() + s);
        assert((q + t).drop_first() =~= q.drop_first() + t);
        assert((p + s)[0] == p[0] && (q + t)[0] == q[0]);
        lemma_lex_concat(p.drop_first(), q.drop_first(), s, t);
        if p[0] == q[0] {
            if p.drop_first() == q.drop_first() {
                assert(p =~= seq![p[0]] + p.drop_first());
                assert(q =~= seq![q[0]] + q.drop_first());
            }
        }
    }
}

/// Digits are ordered as the numbers they stand for.
pub proof fn lemma_digit_order(m: int, n: int)
    requires
        0 <= m <= 9,
        0 <= n <= 9,
    ensures
        digit(m) == digit(n) <==> m == n,
        (digit(m) as u32) < (digit(n) as u32) <==> m < n,
{
}

/// Numbers in two digits are ordered as the numbers.
pub proof fn lemma_two_digits_order(m: int, n: int)
    requires
        0 <= m <= 99,
        0 <= n <= 99,
    ensures
        two_digits(m).len() == 2,
        two_digits(m) == two_digits(n) <==> m == n,
        lex_less(two_digits(m), two_digits(n)) <==> m < n,
{
    lemma_digit_order(m / 10, n / 10);
    lemma_digit_order(m % 10, n % 10);
    let a = two_digits(m);
    let b = two_digits(n);
    assert(a[0] == digit(m / 10) && a[1] == digit(m % 10));
    assert(b[0] == digit(n / 10) && b[1] == digit(n % 10));
    if m == n {
        assert(a =~= b);
    }
    assert(a.drop_first() =~= seq![digit(m % 10)]);
    assert(b.drop_first() =~= seq![digit(n % 10)]);
    assert(a.drop_first().drop_first() =~= Seq::<char>::empty());
    assert(b.drop_first().drop_first() =~= Seq::<char>::empty());
    reveal_with_fuel(lex_less, 3);
}

/// Years of four digits are ordered as the numbers.
pub proof fn lemma_year_order(m: int, n: int)
    requires
        0 <= m <= 9999,
        0 <= n <= 9999,
    ensures
        year_text(m).len() == 4,
        year_text(m) == year_text(n) <==> m == n,
        lex_less(year_text(m), year_text(n)) <==> m < n,
{
    lemma_two_digits_order(m / 100, n / 100);
    lemma_two_digits_order(m % 100, n % 100);
    lemma_two_digits_order(n / 100, m / 100);
    lemma_two_digits_order(n % 100, m % 100);
    lemma_lex_concat(
        two_digits(m / 100),
        two_digits(n / 100),
        two_digits(m % 100),
        two_digits(n % 100),
    );
    if year_text(m) == year_text(n) {
        let a = two_digits(m / 100);
        let b = two_digits(n / 100);
        let c = two_digits(m % 100);
        let d = two_digits(n % 100);
        assert(a =~= (a + c).subrange(0, 2));
        assert(b =~= (b + d).subrange(0, 2));
        assert(c =~= (a + c).subrange(2, 4));
        assert(d =~= (b + d).subrange(2, 4));
    }
}

/// The names of files converted from photographs with date-times in years of
/// four digits stand in the order of the date-times: a name comes before
/// another exactly where its date-time is the earlier one, and two names are
/// the same only where the date-times are.
pub proof fn lemma_names_sort_by_time(a: Timestamp, b: Timestamp)
    requires
        a.valid(),
        b.valid(),
        0 <= a.year <= 9999,
        0 <= b.year <= 9999,
    ensures
        lex_less(NamingView::At(a).file_name(), NamingView::At(b).file_name()) <==> a.earlier(b),
        NamingView::At(a).file_name() == NamingView::At(b).file_name() <==> a == b,
{
    lemma_names_follow_time(a, b);
    lemma_names_follow_time(b, a);
    lemma_lex_irreflexive(NamingView::At(a).file_name());
}

/// A name made from a date-time in a year of four digits comes before another
/// exactly where its date-time is the earlier one.
proof fn lemma_names_follow_time(a: Timestamp, b: Timestamp)
    requires
        a.valid(),
        b.valid(),
        0 <= a.year <= 9999,
        0 <= b.year <= 9999,
    ensures
        lex_less(NamingView::At(a).file_name(), NamingView::At(b).file_name()) <==> a.earlier(b),
{
    let ya = year_text(a.year as int);
    let yb = year_text(b.year as int);
    let ma = two_digits(a.month as int);
    let mb = two_digits(b.month as int);
    let da = two_digits(a.day as int);
    let db = two_digits(b.day as int);
    let ha = two_digits(a.hour as int);
    let hb = two_digits(b.hour as int);
    let ia = two_digits(a.minute as int);
    let ib = two_digits(b.minute as int);
    let sa = two_digits(a.second as int);
    let sb = two_digits(b.second as int);
    let line = seq!['_'];
    let end = name_suffix();
    lemma_year_order(a.year as int, b.year as int);
    lemma_two_digits_order(a.month as int, b.month as int);
    lemma_two_digits_order(a.day as int, b.day as int);
    lemma_two_digits_order(a.hour as int, b.hour as int);
    lemma_two_digits_order(a.minute as int, b.minute as int);
    lemma_two_digits_order(a.second as int, b.second as int);
    lemma_year_order(b.year as int, a.year as int);
    lemma_two_digits_order(b.month as int, a.month as int);
    lemma_two_digits_order(b.day as int, a.day as int);
    lemma_two_digits_order(b.hour as int, a.hour as int);
    lemma_two_digits_order(b.minute as int, a.minute as int);
    lemma_two_digits_order(b.second as int, a.second as int);
    // The names, written as one part followed by the rest.
    let ra5 = sa + end;
    let rb5 = sb + end;
    let ra4 = ia + ra5;
    let rb4 = ib + rb5;
    let ra3 = ha + ra4;
    let rb3 = hb + rb4;
    let ra2 = line + ra3;
    let rb2 = line + rb3;
    let ra1 = da + ra2;
    let rb1 = db + rb2;
    let ra0 = ma + ra1;
    let rb0 = mb + rb1;
    assert(NamingView::At(a).file_name() =~= ya + ra0);
    assert(NamingView::At(b).file_name() =~= yb + rb0);
    lemma_lex_irreflexive(end);
    lemma_lex_concat(sa, sb, end, end);
    lemma_lex_concat(ia, ib, ra5, rb5);
    lemma_lex_concat(ha, hb, ra4, rb4);
    lemma_lex_concat(line, line, ra3, rb3);
    lemma_lex_concat(da, db, ra2, rb2);
    lemma_lex_concat(ma, mb, ra1, rb1);
    lemma_lex_concat(ya, yb, ra0, rb0);
}

/// Calls the comparison `<` of `str`, which orders strings by their bytes and
/// so by their characters.
#[verifier::external_body]
pub(crate) fn precedes(a: &str, b: &str) -> (r: bool)
    ensures
        r == lex_less(a@, b@),
{
    a < b
}

/// Sorts names into the order of a directory listing. Names that are equal
/// keep their places among each other.
pub fn sort_names(names: &Vec<String>) -> (sorted: Vec<String>)
    ensures
        ascending(texts(sorted@)),
        texts(sorted@).to_multiset() == texts(names@).to_multiset(),
        sorted@.len() == names@.len(),
{
    let mut sorted: Vec<String> = Vec::new();
    let mut taken: usize = 0;
    assert(texts(sorted@) =~= texts(names@.take(0)));
    while taken < names.len()
        invariant
            taken <= names.len(),
            sorted@.len() == taken,
            ascending(texts(sorted@)),
            texts(sorted@).to_multiset() == texts(names@.take(taken as int)).to_multiset(),
        decreases names.len() - taken,
    {
        let name = names[taken].clone();
        let mut place: usize = 0;
        while place < sorted.len() && !precedes(name.as_str(), sorted[place].as_str())
            invariant
                place <= sorted.len(),
                forall|k: int| 0 <= k < place ==> !lex_less(name@, #[trigger] sorted@[k]@),
            decreases sorted.len() - place,
        {
            place += 1;
        }
        let ghost before = sorted@;
        sorted.insert(place, name);
        proof {
            let old_texts = texts(before);
            let new_texts = texts(sorted@);
            assert(new_texts =~= old_texts.insert(place as int, name@));
            vstd::seq_lib::to_multiset_insert(old_texts, place as int, name@);
            let prefix = texts(names@.take(taken as int));
            let longer = texts(names@.take(taken as int + 1));
            assert(longer =~= prefix.push(name@));
            vstd::seq_lib::to_multiset_build(prefix, name@);
            assert forall|i: int, j: int| 0 <= i < j < new_texts.len() implies !lex_less(
                new_texts[j],
                new_texts[i],
            ) by {
                if j == place {
                    assert(new_texts[i] == before[i]@);
                } else if i == place {
                    // name comes before the text at `place`, which comes
                    // before none of those after it.
                    assert(new_texts[j] == old_texts[j - 1]);
                    if j - 1 > place {
                        assert(!lex_less(old_texts[j - 1], old_texts[place as int]));
                    }
                    if lex_less(new_texts[j], name@) {
                        lemma_lex_transitive(new_texts[j], name@, old_texts[place as int]);
                        lemma_lex_irreflexive(old_texts[place as int]);
                    }
                } else {
                    let oi = if i < place { i } else { i - 1 };
                    let oj = if j < place { j } else { j - 1 };
                    assert(new_texts[i] == old_texts[oi]);
                    assert(new_texts[j] == old_texts[oj]);
                    assert(!lex_less(old_texts[oj], old_texts[oi]));
                }
            }
        }
        taken += 1;
    }
    assert(names@.take(taken as int) =~= names@);
    sorted
}

} // verus!
