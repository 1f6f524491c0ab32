//! The font families offered by the font selector, read from a `fc-list`
//! listing: split at commas and line breaks, cleaned, sorted without regard
//! to case, and freed of repeats.
use vstd::prelude::*;
use crate::text::{
    is_white_space, trim, trim_start, trim_end, trim_chars, chars_of, string_of_chars, views,
    lemma_trim_start_suffix, lemma_trim_end_prefix,
};

verus! {

/// Family names in a listing end at a line break or a comma.
pub open spec fn is_separator(c: char) -> bool {
    c == '\n' || c == ','
}

/// The stretches of `s` between separators, in order; there is always at
/// least one, and it may be empty.
pub open spec fn pieces(s: Seq<char>) -> Seq<Seq<char>>
    decreases s.len(),
{
    if s.len() == 0 {
        seq![Seq::<char>::empty()]
    } else {
        let p = pieces(s.drop_last());
        if is_separator(s.last()) {
            p.push(Seq::<char>::empty())
        } else {
            p.update(p.len() - 1, p.last().push(s.last()))
        }
    }
}

/// `s` with every backslash removed.
pub open spec fn without_backslashes(s: Seq<char>) -> Seq<char>
    decreases s.len(),
{
    if s.len() == 0 {
        s
    } else if s.last() == '\\' {
        without_backslashes(s.drop_last())
    } else {
        without_backslashes(s.drop_last()).push(s.last())
    }
}

/// A piece as a family name: backslashes dropped, then trimmed.
pub open spec fn clean(piece: Seq<char>) -> Seq<char> {
    trim(without_backslashes(piece))
}

/// The cleaned pieces that are not empty, in order.
pub open spec fn names_of_pieces(ps: Seq<Seq<char>>) -> Seq<Seq<char>>
    decreases ps.len(),
{
    if ps.len() == 0 {
        Seq::empty()
    } else {
        let rest = names_of_pieces(ps.drop_last());
        if clean(ps.last()).len() > 0 {
            rest.push(clean(ps.last()))
        } else {
            rest
        }
    }
}

/// Every family name that a listing holds, in listing order.
pub open spec fn listed_names(listing: Seq<char>) -> Seq<Seq<char>> {
    names_of_pieces(pieces(listing))
}

/// The lowercase form of a string, as `str::to_lowercase` computes it.
pub uninterp spec fn lowercase(s: Seq<char>) -> Seq<char>;

/// Lexicographic order on code points, the order of `String`'s `Ord`.
pub open spec fn chars_lt(a: Seq<char>, b: Seq<char>) -> bool
    decreases a.len(),
{
    if a.len() == 0 {
        b.len() > 0
    } else if b.len() == 0 {
        false
    } else if (a[0] as u32) < (b[0] as u32) {
        true
    } else if a[0] == b[0] {
        chars_lt(a.drop_first(), b.drop_first())
    } else {
        false
    }
}

/// `a` sorts strictly before `b` when compared in lowercase.
pub open spec fn name_lt(a: Seq<char>, b: Seq<char>) -> bool {
    chars_lt(lowercase(a), lowercase(b))
}

/// Puts `x` into `sorted` after every name that does not sort after it.
pub open spec fn insert_name(sorted: Seq<Seq<char>>, x: Seq<char>) -> Seq<Seq<char>>
    decreases sorted.len(),
{
    if sorted.len() > 0 && name_lt(x, sorted.last()) {
        insert_name(sorted.drop_last(), x).push(sorted.last())
    } else {
        sorted.push(x)
    }
}

/// The stable sort of `s` by lowercase form.
pub open spec fn sort_names(s: Seq<Seq<char>>) -> Seq<Seq<char>>
    decreases s.len(),
{
    if s.len() == 0 {
        s
    } else {
        insert_name(sort_names(s.drop_last()), s.last())
    }
}

/// `s` with each run of equal neighbours kept once.
pub open spec fn dedup<T>(s: Seq<T>) -> Seq<T>
    decreases s.len(),
{
    if s.len() <= 1 {
        s
    } else if s[s.len() - 2] == s.last() {
        dedup(s.drop_last())
    } else {
        dedup(s.drop_last()).push(s.last())
    }
}

/// The families offered when a listing yields none.
pub open spec fn fallback_fonts() -> Seq<Seq<char>> {
    seq!["Monospace"@, "Sans-Serif"@, "Serif"@]
}

/// The families the font selector offers for a listing.
pub open spec fn font_families(listing: Seq<char>) -> Seq<Seq<char>> {
    let d = dedup(sort_names(listed_names(listing)));
    if d.len() == 0 {
        fallback_fonts()
    } else {
        d
    }
}

/// Calls `str::to_lowercase`. Trusted: its result is taken to be
/// `lowercase` of the argument, a function of the argument alone; nothing
/// more is claimed of it.
#[verifier::external_body]
fn to_lowercase(s: &str) -> (r: String)
    ensures
        r@ == lowercase(s@),
{
    s.to_lowercase()
}

proof fn lemma_pieces_nonempty(s: Seq<char>)
    ensures
        pieces(s).len() >= 1,
    decreases s.len(),
{
    if s.len() > 0 {
        lemma_pieces_nonempty(s.drop_last());
    }
}

fn strip_backslashes(piece: &Vec<char>) -> (r: Vec<char>)
    ensures
        r@ == without_backslashes(piece@),
{
    let mut r: Vec<char> = Vec::new();
    let mut i: usize = 0;
    assert(piece@.take(0) =~= Seq::<char>::empty());
    while i < piece.len()
        invariant
            i <= piece@.len(),
            r@ == without_backslashes(piece@.take(i as int)),
        decreases piece@.len() - i,
    {
        let c = piece[i];
        assert(piece@.take(i + 1).drop_last() =~= piece@.take(i as int));
        if c != '\\' {
            r.push(c);
        }
        i = i + 1;
    }
    assert(piece@.take(piece@.len() as int) =~= piece@);
    r
}

/// Appends the name that `piece` yields, if any, to `names`.
fn add_piece(names: &mut Vec<String>, piece: &Vec<char>, Ghost(done): Ghost<Seq<Seq<char>>>)
    requires
        views(old(names)@) == names_of_pieces(done),
    ensures
        views(final(names)@) == names_of_pieces(done.push(piece@)),
{
    let stripped = strip_backslashes(piece);
    let cleaned = trim_chars(&stripped);
    assert(done.push(piece@).drop_last() =~= done);
    if cleaned.len() > 0 {
        let name = string_of_chars(&cleaned);
        names.push(name);
        assert(views(names@) =~= views(old(names)@).push(cleaned@));
    }
}

/// Every family name of `listing`, cleaned, in listing order.
fn names_in_listing(listing: &str) -> (names: Vec<String>)
    ensures
        views(names@) == listed_names(listing@),
{
    let mut names: Vec<String> = Vec::new();
    let mut cur: Vec<char> = Vec::new();
    let ghost mut done: Seq<Seq<char>> = Seq::empty();
    assert(listing@.take(0) =~= Seq::<char>::empty());
    assert(views(names@) =~= Seq::<Seq<char>>::empty());
    for c in it: listing.chars()
        invariant
            it.seq() == listing@,
            pieces(listing@.take(it.index() as int)) == done.push(cur@),
            views(names@) == names_of_pieces(done),
    {
        let ghost prefix = listing@.take(it.index() as int);
        assert(listing@.take(it.index() + 1).drop_last() =~= prefix);
        assert(listing@.take(it.index() + 1).last() == c);
        if c == '\n' || c == ',' {
            add_piece(&mut names, &cur, Ghost(done));
            proof {
                done = done.push(cur@);
            }
            cur = Vec::new();
            assert(done.push(cur@) =~= pieces(prefix).push(Seq::<char>::empty()));
        } else {
            cur.push(c);
            proof {
                lemma_pieces_nonempty(prefix);
            }
            assert(done.push(cur@) =~= pieces(prefix).update(
                pieces(prefix).len() - 1,
                pieces(prefix).last().push(c),
            ));
        }
    }
    assert(listing@.take(listing@.len() as int) =~= listing@);
    add_piece(&mut names, &cur, Ghost(done));
    names
}

fn chars_less(a: &Vec<char>, b: &Vec<char>) -> (r: bool)
    ensures
        r == chars_lt(a@, b@),
{
    let mut i: usize = 0;
    assert(a@.skip(0) =~= a@);
    assert(b@.skip(0) =~= b@);
    while i < a.len() && i < b.len()
        invariant
            i <= a@.len(),
            i <= b@.len(),
            chars_lt(a@, b@) == chars_lt(a@.skip(i as int), b@.skip(i as int)),
        decreases a@.len() - i,
    {
        let x = a[i];
        let y = b[i];
        assert(a@.skip(i as int)[0] == x);
        assert(b@.skip(i as int)[0] == y);
        if (x as u32) < (y as u32) {
            return true;
        }
        if x != y {
            return false;
        }
        assert(a@.skip(i as int).drop_first() =~= a@.skip(i + 1));
        assert(b@.skip(i as int).drop_first() =~= b@.skip(i + 1));
        i = i + 1;
    }
    if i == a.len() {
        assert(a@.skip(i as int).len() == 0);
        b.len() > i
    } else {
        assert(b@.skip(i as int).len() == 0);
        false
    }
}

proof fn lemma_insert_step(g: Seq<Seq<char>>, x: Seq<char>, j: int)
    requires
        0 < j <= g.len(),
        name_lt(x, g[j - 1]),
        insert_name(g, x) == insert_name(g.take(j), x) + g.skip(j),
    ensures
        insert_name(g, x) == insert_name(g.take(j - 1), x) + g.skip(j - 1),
{
    assert(g.take(j).drop_last() =~= g.take(j - 1));
    assert(g.take(j).last() == g[j - 1]);
    assert(insert_name(g.take(j), x) == insert_name(g.take(j - 1), x).push(g[j - 1]));
    assert(insert_name(g.take(j - 1), x).push(g[j - 1]) + g.skip(j) =~= insert_name(
        g.take(j - 1),
        x,
    ) + g.skip(j - 1));
}

/// The names in stable order of their lowercase forms.
fn sort_by_lowercase(names: &Vec<String>) -> (sorted: Vec<String>)
    ensures
        views(sorted@) == sort_names(views(names@)),
{
    let mut out: Vec<String> = Vec::new();
    let mut keys: Vec<Vec<char>> = Vec::new();
    let n = names.len();
    assert(views(names@).take(0) =~= Seq::<Seq<char>>::empty());
    assert(views(out@) =~= Seq::<Seq<char>>::empty());
    for i in 0..n
        invariant
            n == names@.len(),
            views(out@) == sort_names(views(names@).take(i as int)),
            keys@.len() == out@.len(),
            forall|k: int| 0 <= k < keys@.len() ==> #[trigger] keys@[k]@ == lowercase(out@[k]@),
    {
        let name = names[i].clone();
        let lower = to_lowercase(name.as_str());
        let key = chars_of(lower.as_str());
        let ghost g = views(out@);
        let ghost x = name@;
        assert(views(names@).take(i + 1).drop_last() =~= views(names@).take(i as int));
        assert(views(names@).take(i + 1).last() == x);
        assert(g.take(g.len() as int) =~= g);
        assert(g.skip(g.len() as int) =~= Seq::<Seq<char>>::empty());
        let mut j = out.len();
        while j > 0 && chars_less(&key, &keys[j - 1])
            invariant
                j <= out@.len(),
                g == views(out@),
                key@ == lowercase(x),
                keys@.len() == out@.len(),
                forall|k: int| 0 <= k < keys@.len() ==> #[trigger] keys@[k]@ == lowercase(out@[k]@),
                insert_name(g, x) == insert_name(g.take(j as int), x) + g.skip(j as int),
            decreases j,
        {
            assert(keys@[j - 1]@ == lowercase(g[j - 1]));
            proof {
                lemma_insert_step(g, x, j as int);
            }
            j = j - 1;
        }
        proof {
            if j > 0 {
                assert(keys@[j - 1]@ == lowercase(g[j - 1]));
                assert(g.take(j as int).last() == g[j - 1]);
            }
            assert(insert_name(g.take(j as int), x) == g.take(j as int).push(x));
            assert(insert_name(g, x) =~= g.insert(j as int, x));
        }
        let ghost keys_before = keys@;
        let ghost out_before = out@;
        out.insert(j, name);
        keys.insert(j, key);
        assert(views(out@) =~= g.insert(j as int, x));
        assert forall|k: int| 0 <= k < keys@.len() implies #[trigger] keys@[k]@ == lowercase(
            out@[k]@,
        ) by {
            if k > j {
                assert(keys@[k] == keys_before[k - 1]);
                assert(out@[k] == out_before[k - 1]);
            } else if k < j {
                assert(keys@[k] == keys_before[k]);
                assert(out@[k] == out_before[k]);
            }
        }
    }
    assert(views(names@).take(n as int) =~= views(names@));
    out
}

proof fn lemma_dedup_last<T>(s: Seq<T>)
    requires
        s.len() > 0,
    ensures
        dedup(s).len() > 0,
        dedup(s).last() == s.last(),
    decreases s.len(),
{
    if s.len() > 1 {
        lemma_dedup_last(s.drop_last());
    }
}

/// The names with each run of equal neighbours kept once.
fn dedup_names(names: &Vec<String>) -> (r: Vec<String>)
    ensures
        views(r@) == dedup(views(names@)),
{
    let mut out: Vec<String> = Vec::new();
    let n = names.len();
    assert(views(names@).take(0) =~= Seq::<Seq<char>>::empty());
    assert(views(out@) =~= Seq::<Seq<char>>::empty());
    for i in 0..n
        invariant
            n == names@.len(),
            views(out@) == dedup(views(names@).take(i as int)),
    {
        let ghost p = views(names@).take(i as int);
        let ghost q = views(names@).take(i + 1);
        assert(q.drop_last() =~= p);
        assert(q.last() == names@[i as int]@);
        let keep = if out.len() == 0 {
            proof {
                if i > 0 {
                    lemma_dedup_last(p);
                }
            }
            true
        } else {
            proof {
                lemma_dedup_last(p);
                assert(q[q.len() - 2] == p.last());
                assert(views(out@)[out@.len() - 1] == out@[out@.len() - 1]@);
            }
            let last = out.len() - 1;
            let same = out[last] == names[i];
            proof {
                if same {
                    assert(dedup(q) == dedup(p));
                } else {
                    assert(dedup(q) == dedup(p).push(q.last()));
                }
            }
            !same
        };
        if keep {
            out.push(names[i].clone());
            assert(views(out@) =~= dedup(p).push(names@[i as int]@));
            proof {
                if i == 0 {
                    assert(q =~= seq![names@[0]@]);
                    assert(dedup(p) =~= Seq::<Seq<char>>::empty());
                }
            }
            assert(views(out@) == dedup(q));
        } else {
            assert(i > 0);
            assert(views(out@) == dedup(q));
        }
    }
    assert(views(names@).take(n as int) =~= views(names@));
    out
}

/// The font families that the selector offers for `listing`, the output
/// of `fc-list : family`: the names between commas and line breaks, with
/// backslashes dropped and white space trimmed, empty ones left out, sorted
/// stably by their lowercase forms, and with repeated neighbours kept once.
/// A listing without names yields "Monospace", "Sans-Serif" and "Serif".
pub fn get_system_fonts(listing: &str) -> (fonts: Vec<String>)
    ensures
        views(fonts@) == font_families(listing@),
{
    let names = names_in_listing(listing);
    let sorted = sort_by_lowercase(&names);
    let unique = dedup_names(&sorted);
    if unique.len() == 0 {
        let mut fallback: Vec<String> = Vec::new();
        fallback.push(String::from_str("Monospace"));
        fallback.push(String::from_str("Sans-Serif"));
        fallback.push(String::from_str("Serif"));
        assert(views(fallback@) =~= fallback_fonts());
        fallback
    } else {
        unique
    }
}

/// No later name sorts strictly before an earlier one.
pub open spec fn sorted_by_name(s: Seq<Seq<char>>) -> bool {
    forall|i: int, j: int| 0 <= i < j < s.len() ==> !name_lt(#[trigger] s[j], #[trigger] s[i])
}

proof fn lemma_chars_lt_irreflexive(a: Seq<char>)
    ensures
        !chars_lt(a, a),
    decreases a.len(),
{
    if a.len() > 0 {
        lemma_chars_lt_irreflexive(a.drop_first());
    }
}

proof fn lemma_chars_lt_transitive(a: Seq<char>, b: Seq<char>, c: Seq<char>)
    requires
        chars_lt(a, b),
        chars_lt(b, c),
    ensures
        chars_lt(a, c),
    decreases a.len(),
{
    if a.len() > 0 && b.len() > 0 && c.len() > 0 {
        if a[0] == b[0] && b[0] == c[0] {
            lemma_chars_lt_transitive(a.drop_first(), b.drop_first(), c.drop_first());
        }
    }
}

proof fn lemma_chars_lt_total(a: Seq<char>, b: Seq<char>)
    ensures
        a == b || chars_lt(a, b) || chars_lt(b, a),
    decreases a.len(),
{
    if a.len() > 0 && b.len() > 0 && a[0] == b[0] {
        lemma_chars_lt_total(a.drop_first(), b.drop_first());
        if a.drop_first() == b.drop_first() {
            assert(a.len() == a.drop_first().len() + 1);
            assert(b.len() == b.drop_first().len() + 1);
            assert(a =~= b) by {
                assert forall|k: int| 0 <= k < a.len() implies a[k] == b[k] by {
                    if k > 0 {
                        assert(a[k] == a.drop_first()[k - 1]);
                        assert(b[k] == b.drop_first()[k - 1]);
                    }
                }
            }
        }
    } else if a.len() == 0 && b.len() == 0 {
        assert(a =~= b);
    } else if a.len() > 0 && b.len() > 0 {
        vstd::utf8::char_u32_cast(a[0], a[0] as u32);
        vstd::utf8::char_u32_cast(b[0], b[0] as u32);
    }
}

/// Not sorting after is a transitive relation on names.
proof fn lemma_name_le_transitive(a: Seq<char>, b: Seq<char>, c: Seq<char>)
    requires
        !name_lt(b, a),
        !name_lt(c, b),
    ensures
        !name_lt(c, a),
{
    let (ka, kb, kc) = (lowercase(a), lowercase(b), lowercase(c));
    if chars_lt(kc, ka) {
        lemma_chars_lt_total(ka, kb);
        if chars_lt(ka, kb) {
            lemma_chars_lt_transitive(kc, ka, kb);
        }
    }
}

proof fn lemma_name_lt_asymmetric(a: Seq<char>, b: Seq<char>)
    requires
        name_lt(a, b),
    ensures
        !name_lt(b, a),
{
    if name_lt(b, a) {
        lemma_chars_lt_transitive(lowercase(a), lowercase(b), lowercase(a));
        lemma_chars_lt_irreflexive(lowercase(a));
    }
}

/// `insert_name` puts `x` at one position: after the names it does not sort
/// before, ahead of a suffix of names it sorts before.
proof fn lemma_insert_name_position(s: Seq<Seq<char>>, x: Seq<char>) -> (j: int)
    ensures
        0 <= j <= s.len(),
        insert_name(s, x) == s.insert(j, x),
        forall|k: int| j <= k < s.len() ==> name_lt(x, #[trigger] s[k]),
        j > 0 ==> !name_lt(x, s[j - 1]),
    decreases s.len(),
{
    if s.len() > 0 && name_lt(x, s.last()) {
        let j = lemma_insert_name_position(s.drop_last(), x);
        assert(s.drop_last().insert(j, x).push(s.last()) =~= s.insert(j, x));
        assert forall|k: int| j <= k < s.len() implies name_lt(x, #[trigger] s[k]) by {
            if k < s.len() - 1 {
                assert(s[k] == s.drop_last()[k]);
            }
        }
        if j > 0 {
            assert(s[j - 1] == s.drop_last()[j - 1]);
        }
        j
    } else {
        assert(s.push(x) =~= s.insert(s.len() as int, x));
        s.len() as int
    }
}

proof fn lemma_insert_name_sorted(s: Seq<Seq<char>>, x: Seq<char>)
    requires
        sorted_by_name(s),
    ensures
        sorted_by_name(insert_name(s, x)),
        insert_name(s, x).to_multiset() == s.to_multiset().insert(x),
{
    let j = lemma_insert_name_position(s, x);
    let t = s.insert(j, x);
    vstd::seq_lib::to_multiset_insert(s, j, x);
    assert forall|a: int, b: int| 0 <= a < b < t.len() implies !name_lt(
        #[trigger] t[b],
        #[trigger] t[a],
    ) by {
        if b < j {
            assert(t[a] == s[a] && t[b] == s[b]);
        } else if b == j {
            assert(t[a] == s[a]);
            assert(!name_lt(x, s[j - 1]));
            if a < j - 1 {
                assert(!name_lt(s[j - 1], s[a]));
            } else {
                lemma_chars_lt_irreflexive(lowercase(s[a]));
            }
            lemma_name_le_transitive(s[a], s[j - 1], x);
        } else if a == j {
            assert(t[b] == s[b - 1]);
            lemma_name_lt_asymmetric(x, s[b - 1]);
        } else if a < j {
            assert(t[a] == s[a] && t[b] == s[b - 1]);
        } else {
            assert(t[a] == s[a - 1] && t[b] == s[b - 1]);
        }
    }
}

/// Sorting puts names in order of their lowercase forms.
pub proof fn lemma_sort_names_sorted(s: Seq<Seq<char>>)
    ensures
        sorted_by_name(sort_names(s)),
    decreases s.len(),
{
    if s.len() > 0 {
        lemma_sort_names_sorted(s.drop_last());
        lemma_insert_name_sorted(sort_names(s.drop_last()), s.last());
    }
}

/// Sorting keeps every name, as often as it occurs.
pub proof fn lemma_sort_names_permutes(s: Seq<Seq<char>>)
    ensures
        sort_names(s).to_multiset() == s.to_multiset(),
    decreases s.len(),
{
    if s.len() > 0 {
        lemma_sort_names_permutes(s.drop_last());
        lemma_sort_names_sorted(s.drop_last());
        lemma_insert_name_sorted(sort_names(s.drop_last()), s.last());
        vstd::seq_lib::to_multiset_build(s.drop_last(), s.last());
        assert(s.drop_last().push(s.last()) =~= s);
    }
}

proof fn lemma_dedup_contains<T>(s: Seq<T>, x: T)
    ensures
        dedup(s).contains(x) <==> s.contains(x),
    decreases s.len(),
{
    if s.len() > 1 {
        let p = s.drop_last();
        let d = dedup(p);
        lemma_dedup_contains(p, x);
        if s.contains(x) {
            let k = choose|k: int| 0 <= k < s.len() && s[k] == x;
            if s[s.len() - 2] == s.last() {
                assert(dedup(s) == d);
                if k < s.len() - 1 {
                    assert(p[k] == x);
                } else {
                    assert(p[s.len() - 2] == x);
                }
                assert(d.contains(x));
            } else {
                assert(dedup(s) == d.push(s.last()));
                if k < s.len() - 1 {
                    assert(p[k] == x);
                    assert(d.contains(x));
                    let m = choose|m: int| 0 <= m < d.len() && d[m] == x;
                    assert(d.push(s.last())[m] == x);
                } else {
                    assert(d.push(s.last())[d.len() as int] == x);
                }
            }
            assert(dedup(s).contains(x));
        }
        if dedup(s).contains(x) {
            if s[s.len() - 2] == s.last() {
                assert(p.contains(x));
            } else {
                let k = choose|k: int| 0 <= k < dedup(s).len() && dedup(s)[k] == x;
                if k < d.len() {
                    assert(d[k] == x);
                    assert(p.contains(x));
                } else {
                    assert(s[s.len() - 1] == x);
                }
            }
            if p.contains(x) {
                let k = choose|k: int| 0 <= k < p.len() && p[k] == x;
                assert(s[k] == x);
            }
            assert(s.contains(x));
        }
    }
}

proof fn lemma_dedup_sorted(s: Seq<Seq<char>>)
    requires
        sorted_by_name(s),
    ensures
        sorted_by_name(dedup(s)),
    decreases s.len(),
{
    if s.len() > 1 {
        let p = s.drop_last();
        assert(sorted_by_name(p)) by {
            assert forall|i: int, j: int| 0 <= i < j < p.len() implies !name_lt(
                #[trigger] p[j],
                #[trigger] p[i],
            ) by {
                assert(p[i] == s[i] && p[j] == s[j]);
            }
        }
        lemma_dedup_sorted(p);
        if s[s.len() - 2] != s.last() {
            let d = dedup(p);
            let t = d.push(s.last());
            assert forall|i: int, j: int| 0 <= i < j < t.len() implies !name_lt(
                #[trigger] t[j],
                #[trigger] t[i],
            ) by {
                if j == t.len() - 1 {
                    assert(t[i] == d[i]);
                    assert(d.contains(d[i]));
                    lemma_dedup_contains(p, d[i]);
                    let k = choose|k: int| 0 <= k < p.len() && p[k] == d[i];
                    assert(s[k] == d[i]);
                } else {
                    assert(t[i] == d[i] && t[j] == d[j]);
                }
            }
        }
    }
}

proof fn lemma_dedup_no_repeats<T>(s: Seq<T>)
    ensures
        forall|k: int| 0 <= k < dedup(s).len() - 1 ==> #[trigger] dedup(s)[k] != dedup(s)[k + 1],
    decreases s.len(),
{
    if s.len() > 1 {
        let p = s.drop_last();
        lemma_dedup_no_repeats(p);
        if s[s.len() - 2] != s.last() {
            lemma_dedup_last(p);
            let d = dedup(p);
            let t = d.push(s.last());
            assert forall|k: int| 0 <= k < t.len() - 1 implies #[trigger] t[k] != t[k + 1] by {
                if k < d.len() - 1 {
                    assert(t[k] == d[k] && t[k + 1] == d[k + 1]);
                } else {
                    assert(t[k] == p.last());
                }
            }
        }
    }
}

/// The font selector never offers an empty list.
pub proof fn lemma_font_families_nonempty(listing: Seq<char>)
    ensures
        font_families(listing).len() > 0,
{
}

/// When a listing names at least one family, the families offered are
/// exactly the names it lists, and they come sorted by lowercase form.
pub proof fn lemma_font_families_of_listed_names(listing: Seq<char>)
    requires
        listed_names(listing).len() > 0,
    ensures
        sorted_by_name(font_families(listing)),
        forall|x: Seq<char>| #[trigger]
            font_families(listing).contains(x) <==> listed_names(listing).contains(x),
{
    let l = listed_names(listing);
    let s = sort_names(l);
    lemma_sort_names_sorted(l);
    lemma_sort_names_permutes(l);
    lemma_dedup_sorted(s);
    assert forall|x: Seq<char>| #[trigger] dedup(s).contains(x) <==> l.contains(x) by {
        lemma_dedup_contains(s, x);
        vstd::seq_lib::to_multiset_contains(s, x);
        vstd::seq_lib::to_multiset_contains(l, x);
    }
    assert(l.contains(l[0]));
    vstd::seq_lib::to_multiset_contains(s, l[0]);
    vstd::seq_lib::to_multiset_contains(l, l[0]);
    lemma_dedup_last(s);
}

/// No family is offered twice in a row.
pub proof fn lemma_font_families_no_repeats(listing: Seq<char>)
    ensures
        forall|k: int|
            0 <= k < font_families(listing).len() - 1 ==> #[trigger] font_families(listing)[k]
                != font_families(listing)[k + 1],
{
    let d = dedup(sort_names(listed_names(listing)));
    lemma_dedup_no_repeats(sort_names(listed_names(listing)));
    if d.len() == 0 {
        reveal_strlit("Monospace");
        reveal_strlit("Sans-Serif");
        reveal_strlit("Serif");
        let f = fallback_fonts();
        assert(f[0] != f[1]) by {
            assert(f[0][0] != f[1][0]);
        }
        assert(f[1] != f[2]) by {
            assert(f[1].len() != f[2].len());
        }
    }
}

/// A family name as the selector shows it: not empty, without white space
/// at either end, and without backslashes, commas or line breaks.
pub open spec fn is_clean_name(n: Seq<char>) -> bool {
    &&& n.len() > 0
    &&& !is_white_space(n[0])
    &&& !is_white_space(n.last())
    &&& forall|k: int| 0 <= k < n.len() ==> #[trigger] n[k] != '\\' && !is_separator(n[k])
}

proof fn lemma_without_backslashes(s: Seq<char>)
    ensures
        forall|m: int|
            0 <= m < without_backslashes(s).len() ==> #[trigger] without_backslashes(s)[m]
                != '\\' && s.contains(without_backslashes(s)[m]),
    decreases s.len(),
{
    if s.len() > 0 {
        let p = s.drop_last();
        lemma_without_backslashes(p);
        let r = without_backslashes(s);
        assert forall|m: int| 0 <= m < r.len() implies #[trigger] r[m] != '\\' && s.contains(
            r[m],
        ) by {
            if m < without_backslashes(p).len() {
                assert(r[m] == without_backslashes(p)[m]);
                let j = choose|j: int| 0 <= j < p.len() && p[j] == r[m];
                assert(s[j] == r[m]);
            } else {
                assert(r[m] == s.last());
                assert(s[s.len() - 1] == r[m]);
            }
        }
    }
}

proof fn lemma_clean_is_clean(piece: Seq<char>)
    requires
        forall|k: int| 0 <= k < piece.len() ==> !is_separator(#[trigger] piece[k]),
        clean(piece).len() > 0,
    ensures
        is_clean_name(clean(piece)),
{
    let w = without_backslashes(piece);
    lemma_without_backslashes(piece);
    let a = lemma_trim_start_suffix(w);
    let t = trim_start(w);
    let b = lemma_trim_end_prefix(t);
    let c = clean(piece);
    assert(c == t.take(b));
    assert(c[0] == t[0]);
    assert forall|k: int| 0 <= k < c.len() implies #[trigger] c[k] != '\\' && !is_separator(
        c[k],
    ) by {
        assert(c[k] == w[a + k]);
        assert(w.contains(w[a + k]));
        let j = choose|j: int| 0 <= j < piece.len() && piece[j] == w[a + k];
        assert(!is_separator(piece[j]));
    }
}

proof fn lemma_pieces_have_no_separators(s: Seq<char>)
    ensures
        forall|i: int, k: int|
            0 <= i < pieces(s).len() && 0 <= k < pieces(s)[i].len() ==> !is_separator(
                #[trigger] pieces(s)[i][k],
            ),
    decreases s.len(),
{
    if s.len() > 0 {
        let p = pieces(s.drop_last());
        lemma_pieces_have_no_separators(s.drop_last());
        lemma_pieces_nonempty(s.drop_last());
        let q = pieces(s);
        assert forall|i: int, k: int| 0 <= i < q.len() && 0 <= k < q[i].len() implies !is_separator(
            #[trigger] q[i][k],
        ) by {
            if is_separator(s.last()) {
                if i < p.len() {
                    assert(q[i] == p[i]);
                }
            } else if i < p.len() - 1 {
                assert(q[i] == p[i]);
            } else {
                assert(q[i] == p.last().push(s.last()));
                if k < p.last().len() {
                    assert(q[i][k] == p[p.len() - 1][k]);
                }
            }
        }
    }
}

proof fn lemma_names_are_clean(ps: Seq<Seq<char>>)
    requires
        forall|i: int, k: int|
            0 <= i < ps.len() && 0 <= k < ps[i].len() ==> !is_separator(#[trigger] ps[i][k]),
    ensures
        forall|m: int| 0 <= m < names_of_pieces(ps).len() ==> is_clean_name(
            #[trigger] names_of_pieces(ps)[m],
        ),
    decreases ps.len(),
{
    if ps.len() > 0 {
        let dp = ps.drop_last();
        assert forall|i: int, k: int| 0 <= i < dp.len() && 0 <= k < dp[i].len() implies !is_separator(
            #[trigger] dp[i][k],
        ) by {
            assert(dp[i] == ps[i]);
        }
        lemma_names_are_clean(dp);
        let last = ps.last();
        if clean(last).len() > 0 {
            assert forall|k: int| 0 <= k < last.len() implies !is_separator(#[trigger] last[k]) by {
                assert(last[k] == ps[ps.len() - 1][k]);
            }
            lemma_clean_is_clean(last);
        }
        let r = names_of_pieces(ps);
        assert forall|m: int| 0 <= m < r.len() implies is_clean_name(#[trigger] r[m]) by {
            if m < names_of_pieces(dp).len() {
                assert(r[m] == names_of_pieces(dp)[m]);
            }
        }
    }
}

/// Every family the selector offers is a clean name: not empty, trimmed,
/// and free of backslashes, commas and line breaks.
pub proof fn lemma_font_families_clean(listing: Seq<char>)
    ensures
        forall|m: int| 0 <= m < font_families(listing).len() ==> is_clean_name(
            #[trigger] font_families(listing)[m],
        ),
{
    let l = listed_names(listing);
    lemma_pieces_have_no_separators(listing);
    lemma_names_are_clean(pieces(listing));
    let f = font_families(listing);
    if l.len() > 0 {
        lemma_font_families_of_listed_names(listing);
        assert forall|m: int| 0 <= m < f.len() implies is_clean_name(#[trigger] f[m]) by {
            assert(f.contains(f[m]));
            let j = choose|j: int| 0 <= j < l.len() && l[j] == f[m];
        }
    } else {
        let s = sort_names(l);
        lemma_sort_names_permutes(l);
        vstd::seq_lib::to_multiset_len(s);
        vstd::seq_lib::to_multiset_len(l);
        reveal_strlit("Monospace");
        reveal_strlit("Sans-Serif");
        reveal_strlit("Serif");
        assert forall|m: int| 0 <= m < f.len() implies is_clean_name(#[trigger] f[m]) by {
            assert(f == fallback_fonts());
        }
    }
}

/// A family name occurs among the names of some pieces exactly when one of
/// the pieces cleans to it and it is not empty.
proof fn lemma_names_of_pieces_contains(ps: Seq<Seq<char>>, x: Seq<char>)
    ensures
        names_of_pieces(ps).contains(x) <==> (x.len() > 0 && exists|k: int|
            0 <= k < ps.len() && clean(#[trigger] ps[k]) == x),
    decreases ps.len(),
{
    if ps.len() > 0 {
        let dp = ps.drop_last();
        lemma_names_of_pieces_contains(dp, x);
        let r = names_of_pieces(dp);
        if names_of_pieces(ps).contains(x) {
            let m = choose|m: int| 0 <= m < names_of_pieces(ps).len() && names_of_pieces(ps)[m] == x;
            if m < r.len() {
                assert(names_of_pieces(ps)[m] == r[m]);
                assert(r.contains(x));
                let k = choose|k: int| 0 <= k < dp.len() && clean(#[trigger] dp[k]) == x;
                assert(ps[k] == dp[k]);
            } else {
                assert(clean(ps[ps.len() - 1]) == x);
            }
        }
        if x.len() > 0 && exists|k: int| 0 <= k < ps.len() && clean(#[trigger] ps[k]) == x {
            let k = choose|k: int| 0 <= k < ps.len() && clean(#[trigger] ps[k]) == x;
            if k < dp.len() {
                assert(dp[k] == ps[k]);
                assert(r.contains(x));
                let m = choose|m: int| 0 <= m < r.len() && r[m] == x;
                if clean(ps.last()).len() > 0 {
                    assert(names_of_pieces(ps)[m] == x);
                }
            } else {
                assert(names_of_pieces(ps)[r.len() as int] == x);
            }
        }
    }
}

/// The selector offers every family the listing names: each stretch
/// between separators that is not empty once its backslashes are dropped
/// and it is trimmed is offered in that cleaned form. It offers nothing
/// else, except the fallback families when no stretch names one.
pub proof fn lemma_font_families_offer_every_named_piece(listing: Seq<char>)
    ensures
        forall|k: int|
            0 <= k < pieces(listing).len() && clean(#[trigger] pieces(listing)[k]).len() > 0
                ==> font_families(listing).contains(clean(pieces(listing)[k])),
        forall|x: Seq<char>| #[trigger]
            font_families(listing).contains(x) ==> (x.len() > 0 && exists|k: int|
                0 <= k < pieces(listing).len() && clean(#[trigger] pieces(listing)[k]) == x) || (
            (forall|k: int|
                0 <= k < pieces(listing).len() ==> clean(#[trigger] pieces(listing)[k]).len()
                    == 0) && fallback_fonts().contains(x)),
{
    let ps = pieces(listing);
    let l = listed_names(listing);
    if l.len() > 0 {
        lemma_font_families_of_listed_names(listing);
        assert forall|k: int| 0 <= k < ps.len() && clean(#[trigger] ps[k]).len() > 0 implies font_families(
            listing,
        ).contains(clean(ps[k])) by {
            lemma_names_of_pieces_contains(ps, clean(ps[k]));
        }
        assert forall|x: Seq<char>| #[trigger] font_families(listing).contains(x) implies (x.len()
            > 0 && exists|k: int| 0 <= k < ps.len() && clean(#[trigger] ps[k]) == x) by {
            lemma_names_of_pieces_contains(ps, x);
        }
    } else {
        let s = sort_names(l);
        lemma_sort_names_permutes(l);
        vstd::seq_lib::to_multiset_len(s);
        vstd::seq_lib::to_multiset_len(l);
        assert(font_families(listing) == fallback_fonts());
        assert forall|k: int| 0 <= k < ps.len() implies clean(#[trigger] ps[k]).len() == 0 by {
            lemma_names_of_pieces_contains(ps, clean(ps[k]));
            if clean(ps[k]).len() > 0 {
                assert(l.contains(clean(ps[k])));
                assert(l[0] == l[0]);
            }
        }
    }
}

} // verus!
