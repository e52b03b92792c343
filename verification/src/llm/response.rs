//! Splitting a reply into speakable segments at `<stop/>` markers.

use vstd::prelude::*;
use crate::text::{
    is_ws, lemma_trim_ends, occurs_at, chars_of, contains, find, find_from, find_from_exec, lemma_contains_find, lemma_find_from_shift,
    lemma_find_from_spec, split, string_of, trim, trim_range, views,
};

verus! {

/// The characters of the segment marker `<stop/>`.
pub open spec fn stop_marker() -> Seq<char> {
    seq!['<', 's', 't', 'o', 'p', '/', '>']
}

/// The trimmed pieces of `parts` that are not empty, in order.
pub open spec fn nonempty_trimmed(parts: Seq<Seq<char>>) -> Seq<Seq<char>>
    decreases parts.len(),
{
    if parts.len() == 0 {
        Seq::empty()
    } else {
        let t = trim(parts[0]);
        (if t.len() > 0 { seq![t] } else { Seq::empty() }) + nonempty_trimmed(parts.drop_first())
    }
}

/// The segments of `text`: the pieces between `<stop/>` markers, trimmed,
/// with the empty ones left out.
pub open spec fn segments_of(text: Seq<char>) -> Seq<Seq<char>> {
    nonempty_trimmed(split(text, stop_marker()))
}

/// The first segment of `text` and what follows its marker, when `text`
/// holds a marker and the text before it is not blank.
pub open spec fn next_segment(text: Seq<char>) -> Option<(Seq<char>, Seq<char>)> {
    match find(text, stop_marker()) {
        Some(pos) => {
            let seg = trim(text.take(pos));
            if seg.len() > 0 {
                Some((seg, text.skip(pos + stop_marker().len())))
            } else {
                None
            }
        },
        None => None,
    }
}

/// The segment that one piece between markers gives: the piece trimmed,
/// or nothing when it is blank.
pub open spec fn segment_of_piece(piece: Seq<char>) -> Seq<Seq<char>> {
    if trim(piece).len() > 0 {
        seq![trim(piece)]
    } else {
        Seq::empty()
    }
}

pub proof fn lemma_nonempty_trimmed_cons(x: Seq<char>, rest: Seq<Seq<char>>)
    ensures
        nonempty_trimmed(seq![x] + rest) == segment_of_piece(x) + nonempty_trimmed(rest),
{
    let all = seq![x] + rest;
    assert(all[0] == x);
    assert(all.drop_first() =~= rest);
}

/// When the first marker in `j` is at `pos`, the segments of `j` followed
/// by any text `r` are the segment of the piece before that marker, then
/// the segments of what follows it.
pub proof fn lemma_segments_marker_at(j: Seq<char>, r: Seq<char>, pos: int)
    requires
        find(j, stop_marker()) == Some(pos),
    ensures
        pos + stop_marker().len() <= j.len(),
        segments_of(j + r) == segment_of_piece(j.take(pos)) + segments_of(j.skip(pos + 7) + r),
{
    let m = stop_marker();
    let s = j + r;
    assert(m.len() == 7);
    lemma_find_from_spec(j, m, 0);
    assert(occurs_at(j, m, pos));
    assert(s.subrange(pos, pos + 7) =~= j.subrange(pos, pos + 7));
    assert forall|k: int| 0 <= k < pos implies !occurs_at(s, m, k) by {
        assert(!occurs_at(j, m, k));
        assert(s.subrange(k, k + 7) =~= j.subrange(k, k + 7));
    }
    assert(occurs_at(s, m, pos));
    lemma_find_from_spec(s, m, 0);
    assert(find(s, m) == Some(pos));
    assert(s.take(pos) =~= j.take(pos));
    assert(s.skip(pos + 7) =~= j.skip(pos + 7) + r);
    assert(split(s, m) == seq![s.take(pos)] + split(s.skip(pos + 7), m));
    lemma_nonempty_trimmed_cons(s.take(pos), split(s.skip(pos + 7), m));
}

/// Without a marker in `s`, its only segment is `s` itself, trimmed,
/// unless it is blank.
pub proof fn lemma_segments_without_marker(s: Seq<char>)
    requires
        find(s, stop_marker()) is None,
    ensures
        segments_of(s) == segment_of_piece(s),
{
    lemma_nonempty_trimmed_cons(s, Seq::empty());
    assert(seq![s] + Seq::<Seq<char>>::empty() =~= seq![s]);
    assert(segment_of_piece(s) + Seq::<Seq<char>>::empty() =~= segment_of_piece(s));
}

/// A marker between two texts joins their segments: the segments of `a`,
/// a `<stop/>` marker and `b` are those of `a` followed by those of `b`.
pub proof fn law_marker_joins_segments(a: Seq<char>, b: Seq<char>)
    ensures
        segments_of(a + stop_marker() + b) == segments_of(a) + segments_of(b),
    decreases a.len(),
{
    let m = stop_marker();
    lemma_find_from_spec(a, m, 0);
    match find(a, m) {
        Some(pos) => {
            lemma_segments_marker_at(a, m + b, pos);
            lemma_segments_marker_at(a, Seq::empty(), pos);
            assert(a + m + b =~= a + (m + b));
            assert(a + Seq::<char>::empty() =~= a);
            let rest = a.skip(pos + 7);
            assert(rest + Seq::<char>::empty() =~= rest);
            assert(rest + (m + b) =~= rest + m + b);
            law_marker_joins_segments(rest, b);
            let head = segment_of_piece(a.take(pos));
            assert(head + (segments_of(rest) + segments_of(b)) =~= head + segments_of(rest)
                + segments_of(b));
        },
        None => {
            let s = a + m + b;
            let n = a.len() as int;
            lemma_marker_after_markerless(a, b);
            assert(s.take(n) =~= a);
            assert(s.skip(n + 7) =~= b);
            assert(split(s, m) == seq![a] + split(b, m));
            lemma_nonempty_trimmed_cons(a, split(b, m));
            lemma_segments_without_marker(a);
        },
    }
}

/// When `a` holds no marker, the first marker in `a`, a marker and `b` is
/// the one right after `a`: `<stop/>` cannot begin inside `a` and run into
/// the marker, as `<` occurs in it only at its start.
proof fn lemma_marker_after_markerless(a: Seq<char>, b: Seq<char>)
    requires
        find(a, stop_marker()) is None,
    ensures
        find(a + stop_marker() + b, stop_marker()) == Some(a.len() as int),
{
    let m = stop_marker();
    let s = a + m + b;
    let n = a.len() as int;
    assert(m.len() == 7);
    lemma_find_from_spec(a, m, 0);
    assert(s.subrange(n, n + 7) =~= m);
    assert(occurs_at(s, m, n));
    lemma_lt_only_first();
    assert((a + m)[n] == '<');
    assert(s[n] == '<');
    assert forall|k: int| 0 <= k < n implies !occurs_at(s, m, k) by {
        if k + 7 <= n {
            assert(!occurs_at(a, m, k));
            assert(s.subrange(k, k + 7) =~= a.subrange(k, k + 7));
        } else if occurs_at(s, m, k) {
            let d = n - k;
            assert(s.subrange(k, k + 7)[d] == s[n]);
            assert(m[d] != '<');
        }
    }
    lemma_find_from_spec(s, m, 0);
}

/// `<` occurs in the marker only at its start.
proof fn lemma_lt_only_first()
    ensures
        forall|d: int| 1 <= d < 7 ==> #[trigger] stop_marker()[d] != '<',
{
    let m = stop_marker();
    assert(m[1] == 's' && m[2] == 't' && m[3] == 'o' && m[4] == 'p' && m[5] == '/' && m[6] == '>');
}

/// Splitting the rest of `s` from `pos` on: when the marker is next found
/// at `j`, the first piece is `s[pos..j]` and the others are those of the
/// text after that marker.
pub proof fn lemma_split_step(s: Seq<char>, p: Seq<char>, pos: int)
    requires
        0 <= pos <= s.len(),
        p.len() > 0,
    ensures
        find_from(s, p, pos) matches Some(j) ==> pos <= j && j + p.len() <= s.len() && split(
            s.skip(pos),
            p,
        ) == seq![s.subrange(pos, j)] + split(s.skip(j + p.len()), p),
        find_from(s, p, pos) is None ==> split(s.skip(pos), p) == seq![s.skip(pos)],
{
    let t = s.skip(pos);
    lemma_find_from_shift(s, p, pos, 0);
    lemma_find_from_spec(s, p, pos);
    if let Some(j) = find_from(s, p, pos) {
        assert(t.take(j - pos) =~= s.subrange(pos, j));
        assert(t.skip(j - pos + p.len()) =~= s.skip(j + p.len()));
    }
}

/// Taking the first segment off a reply keeps the others: when a reply
/// has a first segment, its segments are that segment followed by the
/// segments of the text after the first marker.
pub proof fn law_next_segment_then_rest(text: Seq<char>)
    ensures
        next_segment(text) matches Some(p) ==> segments_of(text) == seq![p.0] + segments_of(p.1),
{
    if next_segment(text) is None {
        return;
    }
    let m = stop_marker();
    lemma_find_from_spec(text, m, 0);
    let pos = find(text, m)->0;
    assert(split(text, m) == seq![text.take(pos)] + split(text.skip(pos + m.len()), m));
    lemma_nonempty_trimmed_cons(text.take(pos), split(text.skip(pos + m.len()), m));
}

/// Every segment of a reply is non-empty and neither starts nor ends with
/// whitespace.
pub proof fn law_segments_are_trimmed(text: Seq<char>)
    ensures
        forall|i: int|
            0 <= i < segments_of(text).len() ==> (#[trigger] segments_of(text)[i]).len() > 0
                && !is_ws(segments_of(text)[i][0]) && !is_ws(segments_of(text)[i].last()),
{
    lemma_nonempty_trimmed_trimmed(split(text, stop_marker()));
}

proof fn lemma_nonempty_trimmed_trimmed(parts: Seq<Seq<char>>)
    ensures
        forall|i: int|
            0 <= i < nonempty_trimmed(parts).len() ==> (#[trigger] nonempty_trimmed(parts)[i]).len()
                > 0 && !is_ws(nonempty_trimmed(parts)[i][0]) && !is_ws(
                nonempty_trimmed(parts)[i].last(),
            ),
    decreases parts.len(),
{
    if parts.len() > 0 {
        lemma_nonempty_trimmed_trimmed(parts.drop_first());
        lemma_trim_ends(parts[0]);
        let head: Seq<Seq<char>> = if trim(parts[0]).len() > 0 {
            seq![trim(parts[0])]
        } else {
            Seq::empty()
        };
        let rest = nonempty_trimmed(parts.drop_first());
        assert forall|i: int| 0 <= i < nonempty_trimmed(parts).len() implies (
        #[trigger] nonempty_trimmed(parts)[i]).len() > 0 && !is_ws(nonempty_trimmed(parts)[i][0])
            && !is_ws(nonempty_trimmed(parts)[i].last()) by {
            if i >= head.len() {
                assert(nonempty_trimmed(parts)[i] == rest[i - head.len()]);
            }
        }
    }
}

/// Splits a language-model reply at its `<stop/>` markers.
pub struct ResponseSegmenter {
    stop_marker: String,
}

impl ResponseSegmenter {
    #[verifier::type_invariant]
    spec fn marker_is_stop(self) -> bool {
        self.stop_marker@ == stop_marker()
    }

    /// The marker this segmenter splits at.
    pub closed spec fn marker(&self) -> Seq<char> {
        self.stop_marker@
    }

    /// A segmenter for the `<stop/>` marker.
    pub fn new() -> (r: Self)
        ensures
            r.marker() == stop_marker(),
    {
        let m = String::from_str("<stop/>");
        proof {
            reveal_strlit("<stop/>");
        }
        assert(m@ =~= stop_marker());
        ResponseSegmenter { stop_marker: m }
    }

    fn marker_chars(&self) -> (m: Vec<char>)
        ensures
            m@ == stop_marker(),
    {
        proof {
            use_type_invariant(self);
        }
        chars_of(self.stop_marker.as_str())
    }

    /// The segments of `text`: each piece between markers, trimmed, when it
    /// is not empty.
    pub fn segment(&self, text: &str) -> (segs: Vec<String>)
        ensures
            views(segs@) == segments_of(text@),
    {
        let s = chars_of(text);
        let m = self.marker_chars();
        let mut out: Vec<String> = Vec::new();
        let mut pos: usize = 0;
        let n = s.len();
        assert(s@.skip(0) =~= s@);
        loop
            invariant
                s@ == text@,
                n == s@.len(),
                m@ == stop_marker(),
                pos <= s@.len(),
                segments_of(text@) == views(out@) + nonempty_trimmed(
                    split(s@.skip(pos as int), stop_marker()),
                ),
            decreases s@.len() - pos,
        {
            proof {
                lemma_split_step(s@, m@, pos as int);
            }
            let next = find_from_exec(&s, &m, pos);
            let end = match next {
                Some(j) => j,
                None => s.len(),
            };
            let ghost piece = s@.subrange(pos as int, end as int);
            let ghost rest: Seq<Seq<char>> = if next is Some {
                split(s@.skip(end + 7), stop_marker())
            } else {
                Seq::empty()
            };
            assert(split(s@.skip(pos as int), stop_marker()) == seq![piece] + rest) by {
                if next is None {
                    assert(s@.skip(pos as int) =~= piece);
                    assert(seq![piece] + rest =~= seq![piece]);
                }
            }
            proof {
                lemma_nonempty_trimmed_cons(piece, rest);
            }
            let (a, b) = trim_range(&s, pos, end);
            let ghost before = views(out@);
            if a < b {
                let piece_str = string_of(&s, a, b);
                out.push(piece_str);
                assert(views(out@) =~= before.push(trim(piece)));
                assert(before.push(trim(piece)) + nonempty_trimmed(rest) =~= before + (seq![
                    trim(piece),
                ] + nonempty_trimmed(rest)));
            } else {
                assert(before + (Seq::<Seq<char>>::empty() + nonempty_trimmed(rest)) =~= before
                    + nonempty_trimmed(rest));
            }
            match next {
                Some(j) => {
                    pos = j + m.len();
                },
                None => {
                    assert(nonempty_trimmed(rest) =~= Seq::<Seq<char>>::empty());
                    assert(views(out@) + Seq::<Seq<char>>::empty() =~= views(out@));
                    return out;
                },
            }
        }
    }

    /// Whether `text` holds a `<stop/>` marker.
    pub fn has_stop(&self, text: &str) -> (b: bool)
        ensures
            b == contains(text@, stop_marker()),
    {
        let s = chars_of(text);
        let m = self.marker_chars();
        proof {
            lemma_contains_find(s@, m@);
        }
        find_from_exec(&s, &m, 0).is_some()
    }

    /// The first segment of `text` and the text after its marker; `None`
    /// when there is no marker or the text before the first one is blank.
    pub fn extract_next(&self, text: &str) -> (r: Option<(String, String)>)
        ensures
            r matches Some(p) ==> next_segment(text@) == Some((p.0@, p.1@)),
            r is None ==> next_segment(text@) is None,
    {
        let s = chars_of(text);
        let m = self.marker_chars();
        let n = s.len();
        proof {
            lemma_find_from_spec(s@, m@, 0);
        }
        match find_from_exec(&s, &m, 0) {
            Some(pos) => {
                let (a, b) = trim_range(&s, 0, pos);
                assert(s@.subrange(0, pos as int) =~= s@.take(pos as int));
                if a < b {
                    let seg = string_of(&s, a, b);
                    let rest = string_of(&s, pos + m.len(), n);
                    assert(s@.subrange(pos + 7, s@.len() as int) =~= s@.skip(pos + 7));
                    Some((seg, rest))
                } else {
                    None
                }
            },
            None => None,
        }
    }

    /// The instructions that ask the model to end each sentence with `<stop/>`.
    pub fn system_prompt() -> (p: &'static str)
        ensures
            p@ == system_prompt_text(),
    {
        "你是语音助手。

要求：
1. 输出适合语音播放
2. 每句话后加 <stop/>
3. 尽量简短
4. 如需调用工具，输出JSON

格式：
普通回答：
文本 + <stop/>

工具调用：
{
  \"tool\": \"\",
  \"params\": {}
}"
    }
}

/// The text of the system prompt.
pub open spec fn system_prompt_text() -> Seq<char> {
    "你是语音助手。

要求：
1. 输出适合语音播放
2. 每句话后加 <stop/>
3. 尽量简短
4. 如需调用工具，输出JSON

格式：
普通回答：
文本 + <stop/>

工具调用：
{
  \"tool\": \"\",
  \"params\": {}
}"@
}

/// The system prompt asks for the marker that the segmenter splits at.
pub proof fn law_system_prompt_uses_marker()
    ensures
        contains(system_prompt_text(), stop_marker()),
{
    reveal_strlit("你是语音助手。

要求：
1. 输出适合语音播放
2. 每句话后加 <stop/>
3. 尽量简短
4. 如需调用工具，输出JSON

格式：
普通回答：
文本 + <stop/>

工具调用：
{
  \"tool\": \"\",
  \"params\": {}
}");
    assert(system_prompt_text().subrange(34, 41) =~= stop_marker());
    assert(occurs_at(system_prompt_text(), stop_marker(), 34));
}

impl Default for ResponseSegmenter {
    fn default() -> (r: Self)
        ensures
            r.marker() == stop_marker(),
    {
        Self::new()
    }
}

} // verus!
