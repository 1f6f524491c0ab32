//! What the editor reads from a monitor's connector to work out its
//! pixel density: whether it is connected, its width in centimetres from
//! the EDID block, and the width field of its first video mode.
use vstd::prelude::*;
use crate::text::{chars_of, string_of_chars, trim, trim_chars};

verus! {

/// The byte of an EDID block that holds the screen's width in centimetres.
pub const EDID_WIDTH_BYTE: usize = 21;

/// The shortest EDID block the width is read from.
pub const EDID_MIN_LEN: usize = 23;

/// The characters of `s` before the first `c`, or all of `s`.
pub open spec fn before_first(s: Seq<char>, c: char) -> Seq<char>
    decreases s.len(),
{
    if s.len() == 0 {
        s
    } else if s[0] == c {
        Seq::empty()
    } else {
        seq![s[0]] + before_first(s.drop_first(), c)
    }
}

/// The first line of `s`: what comes before the first line feed, without a
/// carriage return just before that line feed; all of `s` where it holds
/// no line feed.
pub open spec fn first_line(s: Seq<char>) -> Seq<char> {
    let l = before_first(s, '\n');
    if l.len() < s.len() && l.len() > 0 && l.last() == '\r' {
        l.drop_last()
    } else {
        l
    }
}

/// The width field of the first mode line (as in `3840x2400`): the first
/// line up to its first `x`; nothing when there is no line at all.
pub open spec fn first_mode_width_of(modes: Seq<char>) -> Option<Seq<char>> {
    if modes.len() == 0 {
        None
    } else {
        Some(before_first(first_line(modes), 'x'))
    }
}

/// The word a connected connector's status file holds.
pub open spec fn connected_word() -> Seq<char> {
    seq!['c', 'o', 'n', 'n', 'e', 'c', 't', 'e', 'd']
}

/// Whether a connector's status text says it is connected, blanks around
/// it aside.
pub fn is_connected(status: &str) -> (b: bool)
    ensures
        b == (trim(status@) == connected_word()),
{
    let chars = chars_of(status);
    let t = trim_chars(&chars);
    let word: Vec<char> = vec!['c', 'o', 'n', 'n', 'e', 'c', 't', 'e', 'd'];
    if t.len() != word.len() {
        proof {
            assert(t@.len() != connected_word().len());
        }
        return false;
    }
    let mut i: usize = 0;
    while i < t.len()
        invariant
            t@ == trim(status@),
            t.len() == word.len(),
            word@ == connected_word(),
            i <= t.len(),
            forall|k: int| 0 <= k < i ==> t@[k] == word@[k],
        decreases t.len() - i,
    {
        if t[i] != word[i] {
            proof {
                assert(t@[i as int] != connected_word()[i as int]);
                assert(t@ != connected_word());
            }
            return false;
        }
        i = i + 1;
    }
    proof {
        assert(t@ =~= connected_word());
    }
    true
}

/// The screen width in centimetres that an EDID block records, where the
/// block is long enough and the width is set.
pub fn edid_width_cm(edid: &[u8]) -> (w: Option<u8>)
    ensures
        match w {
            Some(cm) => edid@.len() >= EDID_MIN_LEN && cm == edid@[EDID_WIDTH_BYTE as int] && cm > 0,
            None => edid@.len() < EDID_MIN_LEN || edid@[EDID_WIDTH_BYTE as int] == 0,
        },
{
    if edid.len() < EDID_MIN_LEN {
        None
    } else {
        let cm = edid[EDID_WIDTH_BYTE];
        if cm > 0 {
            Some(cm)
        } else {
            None
        }
    }
}

/// Where no `c` occurs among the first `i` characters, what comes before
/// the first `c` is those characters and what comes before it in the rest.
proof fn lemma_before_first_split(s: Seq<char>, c: char, i: int)
    requires
        0 <= i <= s.len(),
        forall|k: int| 0 <= k < i ==> s[k] != c,
    ensures
        before_first(s, c) == s.take(i) + before_first(s.skip(i), c),
    decreases i,
{
    if i == 0 {
        assert(s.take(0) =~= Seq::<char>::empty());
        assert(s.skip(0) =~= s);
        assert(Seq::<char>::empty() + before_first(s, c) =~= before_first(s, c));
    } else {
        let t = s.drop_first();
        assert forall|k: int| 0 <= k < i - 1 implies t[k] != c by {
            assert(t[k] == s[k + 1]);
        }
        lemma_before_first_split(t, c, i - 1);
        assert(t.skip(i - 1) =~= s.skip(i));
        assert(s.take(i) =~= seq![s[0]] + t.take(i - 1));
        assert(seq![s[0]] + (t.take(i - 1) + before_first(s.skip(i), c))
            =~= s.take(i) + before_first(s.skip(i), c));
    }
}

/// The prefix of `v` before the first `c`.
fn prefix_before(v: &Vec<char>, c: char) -> (r: Vec<char>)
    ensures
        r@ == before_first(v@, c),
{
    let mut r: Vec<char> = Vec::new();
    let mut i: usize = 0;
    while i < v.len()
        invariant
            i <= v.len(),
            r@ == v@.take(i as int),
            forall|k: int| 0 <= k < i ==> v@[k] != c,
        decreases v.len() - i,
    {
        if v[i] == c {
            proof {
                lemma_before_first_split(v@, c, i as int);
                assert(v@.skip(i as int)[0] == c);
                assert(r@ + Seq::<char>::empty() =~= r@);
            }
            return r;
        }
        r.push(v[i]);
        proof {
            assert(r@ =~= v@.take(i + 1));
        }
        i = i + 1;
    }
    proof {
        lemma_before_first_split(v@, c, i as int);
        assert(v@.skip(i as int) =~= Seq::<char>::empty());
        assert(r@ + Seq::<char>::empty() =~= r@);
    }
    r
}

/// The width field of the first line of a connector's mode list.
pub fn first_mode_width(modes: &str) -> (w: Option<String>)
    ensures
        match w {
            Some(s) => first_mode_width_of(modes@) == Some(s@),
            None => first_mode_width_of(modes@) is None,
        },
{
    let chars = chars_of(modes);
    if chars.len() == 0 {
        return None;
    }
    let mut line = prefix_before(&chars, '\n');
    let n = line.len();
    if n < chars.len() && n > 0 && line[n - 1] == '\r' {
        line.pop();
        proof {
            assert(line@ =~= before_first(chars@, '\n').drop_last());
        }
    }
    let width = prefix_before(&line, 'x');
    Some(string_of_chars(&width))
}

} // verus!
