//! Joining and splitting of dotted and mangled names.

use vstd::prelude::*;
use crate::ast::{Name, TokenModel, join_texts, name_text};

verus! {

impl Name {
    /// The dotted text of the name: its identifier texts joined with `.`.
    pub fn text(&self) -> (r: String)
        ensures
            r@ == name_text(*self),
    {
        let mut parts: Vec<String> = Vec::new();
        let n = self.name.len();
        let mut i: usize = 0;
        while i < n
            invariant
                n == self.name@.len(),
                0 <= i <= n,
                parts@.len() == i,
                forall|j: int| 0 <= j < i ==> parts@[j]@ == self.name@[j].text@,
            decreases n - i,
        {
            parts.push(self.name[i].text.clone());
            i += 1;
        }
        proof {
            reveal_strlit(".");
            assert(parts@.map_values(|x: String| x@) =~= self@.map_values(
                |t: TokenModel| t.text,
            ));
            assert("."@ =~= seq!['.']);
        }
        join_path(&parts, ".")
    }
}

/// First index of `c` in `s`, or `-1` when `c` does not occur.
pub open spec fn char_index_of(s: Seq<char>, c: char) -> int
    decreases s,
{
    if s.len() == 0 {
        -1
    } else if s[0] == c {
        0
    } else {
        let r = char_index_of(s.subrange(1, s.len() as int), c);
        if r < 0 {
            -1
        } else {
            r + 1
        }
    }
}

/// The pieces of `s` between occurrences of `sep`; never empty, and
/// `split_text(s, sep)` of a separator-free `s` is `[s]`.
pub open spec fn split_text(s: Seq<char>, sep: char) -> Seq<Seq<char>>
    decreases s.len(),
{
    let i = char_index_of(s, sep);
    if 0 <= i && i < s.len() {
        seq![s.subrange(0, i)] + split_text(s.subrange(i + 1, s.len() as int), sep)
    } else {
        seq![s]
    }
}

/// `char_index_of` yields `-1` or an index of `s`.
pub proof fn lemma_char_index_of_range(s: Seq<char>, c: char)
    ensures
        char_index_of(s, c) == -1 || (0 <= char_index_of(s, c) < s.len() && s[char_index_of(
            s,
            c,
        )] == c),
    decreases s,
{
    if s.len() > 0 && s[0] != c {
        lemma_char_index_of_range(s.subrange(1, s.len() as int), c);
    }
}

proof fn lemma_char_index_of_found(s: Seq<char>, c: char, i: int)
    requires
        0 <= i < s.len(),
        s[i] == c,
        forall|j: int| 0 <= j < i ==> s[j] != c,
    ensures
        char_index_of(s, c) == i,
    decreases s,
{
    if i > 0 {
        let sub = s.subrange(1, s.len() as int);
        assert forall|j: int| 0 <= j < i - 1 implies sub[j] != c by {
            assert(sub[j] == s[j + 1]);
        }
        lemma_char_index_of_found(sub, c, i - 1);
    }
}

proof fn lemma_char_index_of_absent(s: Seq<char>, c: char)
    requires
        forall|i: int| 0 <= i < s.len() ==> s[i] != c,
    ensures
        char_index_of(s, c) == -1,
    decreases s,
{
    if s.len() > 0 {
        let sub = s.subrange(1, s.len() as int);
        assert forall|i: int| 0 <= i < sub.len() implies sub[i] != c by {
            assert(sub[i] == s[i + 1]);
        }
        lemma_char_index_of_absent(sub, c);
    }
}

/// Splits a path at each occurrence of `sep`.
pub fn split_path(s: &str, sep: char) -> (r: Vec<String>)
    ensures
        r@.map_values(|x: String| x@) == split_text(s@, sep),
        r@.len() > 0,
{
    let n = s.unicode_len();
    let mut r: Vec<String> = Vec::new();
    let mut seg_start: usize = 0;
    let mut i: usize = 0;
    proof {
        assert(s@.subrange(0, n as int) =~= s@);
        assert(r@.map_values(|x: String| x@) =~= Seq::<Seq<char>>::empty());
        assert(Seq::<Seq<char>>::empty() + split_text(s@, sep) =~= split_text(s@, sep));
    }
    while i < n
        invariant
            n == s@.len(),
            0 <= seg_start <= i <= n,
            forall|j: int| seg_start <= j < i ==> s@[j] != sep,
            split_text(s@, sep) == r@.map_values(|x: String| x@) + split_text(
                s@.subrange(seg_start as int, n as int),
                sep,
            ),
        decreases n - i,
    {
        let ch = s.get_char(i);
        if ch == sep {
            let ghost tail = s@.subrange(seg_start as int, n as int);
            let ghost rel = i - seg_start;
            proof {
                assert forall|j: int| 0 <= j < rel implies tail[j] != sep by {
                    assert(tail[j] == s@[seg_start + j]);
                }
                assert(tail[rel] == s@[i as int]);
                lemma_char_index_of_found(tail, sep, rel);
                assert(tail.subrange(0, rel) =~= s@.subrange(seg_start as int, i as int));
                assert(tail.subrange(rel + 1, tail.len() as int) =~= s@.subrange(
                    i + 1,
                    n as int,
                ));
            }
            let piece = s.substring_char(seg_start, i).to_owned();
            let ghost old_r = r@;
            r.push(piece);
            proof {
                assert(r@.map_values(|x: String| x@) =~= old_r.map_values(|x: String| x@)
                    + seq![s@.subrange(seg_start as int, i as int)]);
            }
            seg_start = i + 1;
        }
        i += 1;
    }
    let ghost tail = s@.subrange(seg_start as int, n as int);
    proof {
        assert forall|j: int| 0 <= j < tail.len() implies tail[j] != sep by {
            assert(tail[j] == s@[seg_start + j]);
        }
        lemma_char_index_of_absent(tail, sep);
    }
    let piece = s.substring_char(seg_start, n).to_owned();
    let ghost old_r = r@;
    r.push(piece);
    proof {
        assert(r@.map_values(|x: String| x@) =~= old_r.map_values(|x: String| x@) + seq![tail]);
    }
    r
}

/// Appending one more part to a joined text.
pub proof fn lemma_join_push(parts: Seq<Seq<char>>, p: Seq<char>, sep: char)
    ensures
        parts.len() == 0 ==> join_texts(parts.push(p), sep) == p,
        parts.len() > 0 ==> join_texts(parts.push(p), sep) == join_texts(parts, sep) + seq![sep]
            + p,
    decreases parts.len(),
{
    let whole = parts.push(p);
    if parts.len() == 0 {
        assert(whole[0] == p);
    } else if parts.len() == 1 {
        assert(whole[0] == parts[0]);
        assert(whole.subrange(1, whole.len() as int) =~= Seq::empty().push(p));
        lemma_join_push(Seq::empty(), p, sep);
        assert(join_texts(whole, sep) == parts[0] + seq![sep] + p);
        assert(join_texts(parts, sep) == parts[0]);
    } else {
        let sub = parts.subrange(1, parts.len() as int);
        assert(whole.subrange(1, whole.len() as int) =~= sub.push(p));
        lemma_join_push(sub, p, sep);
        assert(whole[0] == parts[0]);
        assert(join_texts(whole, sep) == whole[0] + seq![sep] + join_texts(sub.push(p), sep));
        assert(parts[0] + seq![sep] + (join_texts(sub, sep) + seq![sep] + p) =~= (parts[0]
            + seq![sep] + join_texts(sub, sep)) + seq![sep] + p);
    }
}

/// Joins the given parts with `sep`.
pub fn join_path(parts: &Vec<String>, sep: &str) -> (r: String)
    requires
        sep@.len() == 1,
    ensures
        r@ == join_texts(parts@.map_values(|x: String| x@), sep@[0]),
{
    let ghost sepc = sep@[0];
    let mut r = String::new();
    let n = parts.len();
    let mut i: usize = 0;
    while i < n
        invariant
            n == parts@.len(),
            0 <= i <= n,
            sep@.len() == 1,
            sepc == sep@[0],
            r@ == join_texts(parts@.map_values(|x: String| x@).subrange(0, i as int), sepc),
        decreases n - i,
    {
        let ghost all = parts@.map_values(|x: String| x@);
        let ghost prefix = all.subrange(0, i as int);
        if i > 0 {
            r.append(sep);
            proof {
                assert(seq![sepc] =~= sep@);
            }
        }
        r.append(parts[i].as_str());
        proof {
            lemma_join_push(prefix, all[i as int], sepc);
            assert(all.subrange(0, i + 1) =~= prefix.push(all[i as int]));
        }
        i += 1;
    }
    proof {
        assert(parts@.map_values(|x: String| x@).subrange(0, n as int) =~= parts@.map_values(
            |x: String| x@,
        ));
    }
    r
}

} // verus!
