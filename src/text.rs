//! Text primitives over character sequences: padding, joining, trimming,
//! ordering and counting, each with the statement it is proved against.
use vstd::prelude::*;

verus! {

/// `n` spaces.
pub open spec fn spaces(n: nat) -> Seq<char> {
    Seq::new(n, |i: int| ' ')
}

/// `items` with `sep` between each two neighbours.
pub open spec fn join(items: Seq<Seq<char>>, sep: Seq<char>) -> Seq<char>
    decreases items.len(),
{
    if items.len() == 0 {
        seq![]
    } else if items.len() == 1 {
        items[0]
    } else {
        join(items.drop_last(), sep) + sep + items.last()
    }
}

/// `s` with `ind` put before the first character of every non-empty line;
/// `need` says whether `s` starts at the beginning of a line.
pub open spec fn indent_lines_from(ind: Seq<char>, s: Seq<char>, need: bool) -> Seq<char>
    decreases s.len(),
{
    if s.len() == 0 {
        seq![]
    } else {
        let c = s[0];
        (if need && c != '\n' {
            ind
        } else {
            seq![]
        }) + seq![c] + indent_lines_from(ind, s.drop_first(), c == '\n')
    }
}

/// `s` written from the start of a line, every non-empty line indented by `ind`.
pub open spec fn indent_lines(ind: Seq<char>, s: Seq<char>) -> Seq<char> {
    indent_lines_from(ind, s, true)
}

/// Unicode's White_Space property, the set that `char::is_whitespace` tests.
pub open spec fn is_white_space(c: char) -> bool {
    let u = c as u32;
    (0x9 <= u && u <= 0xD) || u == 0x20 || u == 0x85 || u == 0xA0 || u == 0x1680 || (0x2000 <= u
        && u <= 0x200A) || u == 0x2028 || u == 0x2029 || u == 0x202F || u == 0x205F || u == 0x3000
}

/// `s` without its trailing white space.
pub open spec fn trim_end(s: Seq<char>) -> Seq<char>
    decreases s.len(),
{
    if s.len() > 0 && is_white_space(s.last()) {
        trim_end(s.drop_last())
    } else {
        s
    }
}

/// Lexicographic order on characters by code point, a prefix first.
pub open spec fn lex_le(a: Seq<char>, b: Seq<char>) -> bool
    decreases a.len(),
{
    if a.len() == 0 {
        true
    } else if b.len() == 0 {
        false
    } else if a[0] < b[0] {
        true
    } else if a[0] == b[0] {
        lex_le(a.drop_first(), b.drop_first())
    } else {
        false
    }
}

/// Every element is at most every later one.
pub open spec fn is_sorted(s: Seq<Seq<char>>) -> bool {
    forall|i: int, j: int| 0 <= i < j < s.len() ==> lex_le(#[trigger] s[i], #[trigger] s[j])
}

/// The number of line breaks in `s`.
pub open spec fn count_newlines(s: Seq<char>) -> nat
    decreases s.len(),
{
    if s.len() == 0 {
        0
    } else {
        count_newlines(s.drop_last()) + if s.last() == '\n' {
            1nat
        } else {
            0nat
        }
    }
}

/// `x` put into `r` before the first element that does not come before it.
pub open spec fn insert_sorted(r: Seq<Seq<char>>, x: Seq<char>) -> Seq<Seq<char>>
    decreases r.len(),
{
    if r.len() == 0 {
        seq![x]
    } else if lex_le(r[0], x) {
        seq![r[0]] + insert_sorted(r.drop_first(), x)
    } else {
        seq![x] + r
    }
}

/// `s` sorted by insertion, element after element.
pub open spec fn sort_seq(s: Seq<Seq<char>>) -> Seq<Seq<char>>
    decreases s.len(),
{
    if s.len() == 0 {
        s
    } else {
        insert_sorted(sort_seq(s.drop_last()), s.last())
    }
}

proof fn lemma_insert_at(r: Seq<Seq<char>>, x: Seq<char>, j: int)
    requires
        0 <= j <= r.len(),
        forall|k: int| 0 <= k < j ==> lex_le(#[trigger] r[k], x),
        j < r.len() ==> !lex_le(r[j], x),
    ensures
        insert_sorted(r, x) == r.insert(j, x),
    decreases j,
{
    if j == 0 {
        assert(insert_sorted(r, x) =~= r.insert(j, x));
    } else {
        let t = r.drop_first();
        assert forall|k: int| 0 <= k < j - 1 implies lex_le(#[trigger] t[k], x) by {
            assert(t[k] == r[k + 1]);
        }
        lemma_insert_at(t, x, j - 1);
        assert(insert_sorted(r, x) =~= r.insert(j, x));
    }
}

/// Where `insert_sorted` puts `x` in `r`.
pub open spec fn insert_pos(r: Seq<Seq<char>>, x: Seq<char>) -> nat
    decreases r.len(),
{
    if r.len() == 0 {
        0
    } else if lex_le(r[0], x) {
        1 + insert_pos(r.drop_first(), x)
    } else {
        0
    }
}

proof fn lemma_insert_pos(r: Seq<Seq<char>>, x: Seq<char>)
    ensures
        insert_pos(r, x) <= r.len(),
        forall|k: int| 0 <= k < insert_pos(r, x) ==> lex_le(#[trigger] r[k], x),
        insert_pos(r, x) < r.len() ==> !lex_le(r[insert_pos(r, x) as int], x),
    decreases r.len(),
{
    if r.len() > 0 && lex_le(r[0], x) {
        let t = r.drop_first();
        lemma_insert_pos(t, x);
        assert forall|k: int| 0 <= k < insert_pos(r, x) implies lex_le(#[trigger] r[k], x) by {
            if k > 0 {
                assert(r[k] == t[k - 1]);
            }
        }
        if insert_pos(r, x) < r.len() {
            assert(r[insert_pos(r, x) as int] == t[insert_pos(t, x) as int]);
        }
    }
}

/// Inserting into a sorted sequence keeps it sorted and adds exactly `x`.
pub proof fn lemma_insert_sorted(r: Seq<Seq<char>>, x: Seq<char>)
    requires
        is_sorted(r),
    ensures
        is_sorted(insert_sorted(r, x)),
        insert_sorted(r, x).to_multiset() == r.to_multiset().insert(x),
{
    let j = insert_pos(r, x) as int;
    lemma_insert_pos(r, x);
    lemma_insert_at(r, x, j);
    if j < r.len() {
        lemma_lex_le_total(r[j], x);
        assert forall|k: int| j <= k < r.len() implies lex_le(x, #[trigger] r[k]) by {
            if k > j {
                lemma_lex_le_trans(x, r[j], r[k]);
            }
        }
    }
    let nv = r.insert(j, x);
    assert forall|a: int, b: int| 0 <= a < b < nv.len() implies lex_le(
        #[trigger] nv[a],
        #[trigger] nv[b],
    ) by {
        if b < j {
        } else if b == j {
        } else if a < j {
            lemma_lex_le_trans(r[a], x, r[b - 1]);
        } else if a == j {
        } else {
        }
    }
    vstd::seq_lib::to_multiset_insert(r, j, x);
}

/// `sort_seq` gives a sorted sequence with the same elements.
pub proof fn lemma_sort_seq(s: Seq<Seq<char>>)
    ensures
        is_sorted(sort_seq(s)),
        sort_seq(s).to_multiset() == s.to_multiset(),
    decreases s.len(),
{
    if s.len() > 0 {
        lemma_sort_seq(s.drop_last());
        lemma_insert_sorted(sort_seq(s.drop_last()), s.last());
        assert(s =~= s.drop_last().push(s.last()));
        vstd::seq_lib::to_multiset_build(s.drop_last(), s.last());
    }
}

/// Two sorted sequences with the same elements are equal.
pub proof fn lemma_sorted_unique(a: Seq<Seq<char>>, b: Seq<Seq<char>>)
    requires
        is_sorted(a),
        is_sorted(b),
        a.to_multiset() == b.to_multiset(),
    ensures
        a == b,
    decreases a.len(),
{
    vstd::seq_lib::to_multiset_len(a);
    vstd::seq_lib::to_multiset_len(b);
    if a.len() == 0 {
        assert(a =~= b);
    } else {
        vstd::seq_lib::to_multiset_contains(a, a[0]);
        vstd::seq_lib::to_multiset_contains(b, a[0]);
        assert(a.contains(a[0]));
        let k = choose|k: int| 0 <= k < b.len() && b[k] == a[0];
        if k > 0 {
            assert(lex_le(b[0], b[k]));
        }
        vstd::seq_lib::to_multiset_contains(b, b[0]);
        vstd::seq_lib::to_multiset_contains(a, b[0]);
        assert(b.contains(b[0]));
        let m = choose|m: int| 0 <= m < a.len() && a[m] == b[0];
        if m > 0 {
            assert(lex_le(a[0], a[m]));
        }
        if k > 0 && m > 0 {
            lemma_lex_le_antisym(a[0], b[0]);
        }
        assert(a[0] == b[0]);
        vstd::seq_lib::to_multiset_remove(a, 0);
        vstd::seq_lib::to_multiset_remove(b, 0);
        assert(a.remove(0) =~= a.drop_first());
        assert(b.remove(0) =~= b.drop_first());
        let ta = a.drop_first();
        let tb = b.drop_first();
        assert forall|i: int, j: int| 0 <= i < j < ta.len() implies lex_le(#[trigger] ta[i], #[trigger] ta[j]) by {
            assert(ta[i] == a[i + 1] && ta[j] == a[j + 1]);
        }
        assert forall|i: int, j: int| 0 <= i < j < tb.len() implies lex_le(#[trigger] tb[i], #[trigger] tb[j]) by {
            assert(tb[i] == b[i + 1] && tb[j] == b[j + 1]);
        }
        lemma_sorted_unique(ta, tb);
        assert(a =~= seq![a[0]] + ta);
        assert(b =~= seq![b[0]] + tb);
    }
}

pub proof fn lemma_trim_end_comma()
    ensures
        trim_end(", "@) == ","@,
{
    reveal_strlit(", ");
    reveal_strlit(",");
    assert(", "@.drop_last() =~= ","@);
    assert(", "@.last() == ' ');
    assert((' ' as u32) == 0x20);
    assert(","@.last() == ',');
    assert((',' as u32) == 0x2C);
    reveal_with_fuel(trim_end, 2);
    assert(","@.drop_last() =~= Seq::<char>::empty());
}

proof fn lemma_lex_le_antisym(a: Seq<char>, b: Seq<char>)
    requires
        lex_le(a, b),
        lex_le(b, a),
    ensures
        a == b,
    decreases a.len(),
{
    if a.len() > 0 && b.len() > 0 {
        lemma_lex_le_antisym(a.drop_first(), b.drop_first());
        assert(a[0] == b[0]);
        assert(a =~= seq![a[0]] + a.drop_first());
        assert(b =~= seq![b[0]] + b.drop_first());
    } else {
        assert(a =~= b);
    }
}

pub proof fn lemma_lex_le_total(a: Seq<char>, b: Seq<char>)
    ensures
        lex_le(a, b) || lex_le(b, a),
    decreases a.len(),
{
    if a.len() > 0 && b.len() > 0 && a[0] == b[0] {
        lemma_lex_le_total(a.drop_first(), b.drop_first());
    }
}

pub proof fn lemma_lex_le_trans(a: Seq<char>, b: Seq<char>, c: Seq<char>)
    requires
        lex_le(a, b),
        lex_le(b, c),
    ensures
        lex_le(a, c),
    decreases a.len(),
{
    if a.len() > 0 && b.len() > 0 && c.len() > 0 && a[0] == b[0] && b[0] == c[0] {
        lemma_lex_le_trans(a.drop_first(), b.drop_first(), c.drop_first());
    }
}

/// `n` spaces.
pub fn make_spaces(n: usize) -> (r: String)
    ensures
        r@ == spaces(n as nat),
{
    let mut r = String::new();
    let mut i: usize = 0;
    proof {
        reveal_strlit(" ");
    }
    while i < n
        invariant
            i <= n,
            r@ == spaces(i as nat),
            " "@ == seq![' '],
        decreases n - i,
    {
        r.append(" ");
        i = i + 1;
        assert(r@ =~= spaces(i as nat));
    }
    r
}

proof fn lemma_join_step(items: Seq<Seq<char>>, sep: Seq<char>, i: int)
    requires
        0 < i < items.len(),
    ensures
        join(items.subrange(0, i + 1), sep) == join(items.subrange(0, i), sep) + sep + items[i],
{
    assert(items.subrange(0, i + 1).drop_last() =~= items.subrange(0, i));
}

/// The items with `sep` between each two neighbours.
pub fn join_items(items: &Vec<String>, sep: &str) -> (r: String)
    ensures
        r@ == join(items.deep_view(), sep@),
{
    let ghost v = items.deep_view();
    let mut r = String::new();
    let mut i: usize = 0;
    while i < items.len()
        invariant
            i <= items.len(),
            v == items.deep_view(),
            v.len() == items.len(),
            r@ == join(v.subrange(0, i as int), sep@),
        decreases items.len() - i,
    {
        if i > 0 {
            r.append(sep);
            proof {
                lemma_join_step(v, sep@, i as int);
            }
        } else {
            assert(v.subrange(0, 1) =~= seq![v[0]]);
        }
        r.append(items[i].as_str());
        i = i + 1;
    }
    assert(v.subrange(0, i as int) =~= v);
    r
}

/// Whether `c` is white space in Unicode's sense.
pub fn is_white_space_char(c: char) -> (r: bool)
    ensures
        r == is_white_space(c),
{
    let u = c as u32;
    (0x9 <= u && u <= 0xD) || u == 0x20 || u == 0x85 || u == 0xA0 || u == 0x1680 || (0x2000 <= u
        && u <= 0x200A) || u == 0x2028 || u == 0x2029 || u == 0x202F || u == 0x205F || u == 0x3000
}

/// `s` without its trailing white space.
pub fn trim_end_str(s: &str) -> (r: String)
    ensures
        r@ == trim_end(s@),
{
    let mut n = s.unicode_len();
    assert(s@.subrange(0, n as int) =~= s@);
    while n > 0 && is_white_space_char(s.get_char(n - 1))
        invariant
            n <= s@.len(),
            trim_end(s@) == trim_end(s@.subrange(0, n as int)),
        decreases n,
    {
        assert(s@.subrange(0, n as int).drop_last() =~= s@.subrange(0, n - 1));
        n = n - 1;
    }
    assert(trim_end(s@.subrange(0, n as int)) == s@.subrange(0, n as int));
    String::from_str(s.substring_char(0, n))
}

/// Whether `a` comes no later than `b` in lexicographic order.
pub fn lex_le_str(a: &str, b: &str) -> (r: bool)
    ensures
        r == lex_le(a@, b@),
{
    let la = a.unicode_len();
    let lb = b.unicode_len();
    let mut i: usize = 0;
    assert(a@.skip(0) =~= a@);
    assert(b@.skip(0) =~= b@);
    while i < la && i < lb
        invariant
            i <= la == a@.len(),
            i <= lb == b@.len(),
            lex_le(a@, b@) == lex_le(a@.skip(i as int), b@.skip(i as int)),
        decreases la - i,
    {
        let ca = a.get_char(i);
        let cb = b.get_char(i);
        if ca < cb {
            return true;
        } else if ca != cb {
            return false;
        }
        assert(a@.skip(i as int).drop_first() =~= a@.skip(i + 1));
        assert(b@.skip(i as int).drop_first() =~= b@.skip(i + 1));
        i = i + 1;
    }
    i == la
}

/// The number of line breaks among the characters of `s` from `from` up to `to`
/// (none where the range is empty).
pub fn count_newlines_between(s: &str, from: usize, to: usize) -> (r: usize)
    requires
        to <= s@.len(),
    ensures
        r == if from < to {
            count_newlines(s@.subrange(from as int, to as int))
        } else {
            0
        },
{
    if from >= to {
        return 0;
    }
    let mut i: usize = from;
    let mut r: usize = 0;
    assert(s@.subrange(from as int, from as int) =~= seq![]);
    while i < to
        invariant
            from <= i <= to <= s@.len(),
            r == count_newlines(s@.subrange(from as int, i as int)),
            r <= i - from,
        decreases to - i,
    {
        assert(s@.subrange(from as int, i + 1).drop_last() =~= s@.subrange(from as int, i as int));
        if s.get_char(i) == '\n' {
            r = r + 1;
        }
        i = i + 1;
    }
    r
}


/// `items` in non-decreasing lexicographic order, the same strings as many times each.
pub fn sort_strings(items: &Vec<String>) -> (r: Vec<String>)
    ensures
        r.deep_view() == sort_seq(items.deep_view()),
        is_sorted(r.deep_view()),
        r.deep_view().to_multiset() == items.deep_view().to_multiset(),
{
    let ghost orig = items.deep_view();
    let mut r: Vec<String> = Vec::new();
    let mut i: usize = 0;
    assert(orig.subrange(0, 0) =~= seq![]);
    assert(r.deep_view() =~= seq![]);
    while i < items.len()
        invariant
            i <= items.len() == orig.len(),
            orig == items.deep_view(),
            is_sorted(r.deep_view()),
            r.deep_view().to_multiset() == orig.subrange(0, i as int).to_multiset(),
            r.deep_view() == sort_seq(orig.subrange(0, i as int)),
        decreases items.len() - i,
    {
        let x = items[i].clone();
        let ghost rv = r.deep_view();
        let mut j: usize = 0;
        while j < r.len() && lex_le_str(r[j].as_str(), x.as_str())
            invariant
                j <= r.len() == rv.len(),
                rv == r.deep_view(),
                forall|k: int| 0 <= k < j ==> lex_le(#[trigger] rv[k], x@),
            decreases r.len() - j,
        {
            j = j + 1;
        }
        r.insert(j, x);
        proof {
            assert(r.deep_view() =~= rv.insert(j as int, x@));
            lemma_insert_at(rv, x@, j as int);
            lemma_insert_sorted(rv, x@);
            assert(x@ == orig[i as int]);
            assert(orig.subrange(0, i + 1) =~= orig.subrange(0, i as int).push(orig[i as int]));
            assert(orig.subrange(0, i + 1).drop_last() =~= orig.subrange(0, i as int));
            vstd::seq_lib::to_multiset_build(orig.subrange(0, i as int), orig[i as int]);
        }
        i = i + 1;
    }
    assert(orig.subrange(0, i as int) =~= orig);
    r
}

} // verus!
