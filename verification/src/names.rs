//! Derivation of the naming variants used across generated files: the
//! underscore form (for identifiers) and the human-readable form (words
//! split on `-`, each with its first character uppercased).

use vstd::prelude::*;
use vstd::string::*;

use crate::strutil::find_last;
use crate::util::{
    is_ws, lemma_word_count_concat, lemma_word_count_word, spec_word_count, word_count_from,
    ws_state_after,
};

verus! {

/// The underscore variant: every `-` replaced with `_`, nothing else
/// touched.
pub open spec fn underscore_of(s: Seq<char>) -> Seq<char> {
    s.map_values(
        |c: char|
            if c == '-' {
                '_'
            } else {
                c
            },
    )
}

/// The underscore variant keeps the input's length and holds no `-`.
pub proof fn lemma_underscore_shape(s: Seq<char>)
    ensures
        underscore_of(s).len() == s.len(),
        forall|i: int| 0 <= i < s.len() ==> underscore_of(s)[i] != '-',
{
    assert forall|i: int| 0 <= i < s.len() implies underscore_of(s)[i] != '-' by {
        assert(underscore_of(s)[i] == if s[i] == '-' {
            '_'
        } else {
            s[i]
        });
    }
}

/// The `-`-separated segments of `s`, empty segments included; a text
/// without `-` is one segment, so there is always at least one.
pub open spec fn segments_of(s: Seq<char>) -> Seq<Seq<char>>
    decreases s.len(),
{
    if s.len() == 0 {
        seq![s]
    } else if s.last() == '-' {
        segments_of(s.drop_last()).push(Seq::empty())
    } else {
        let segs = segments_of(s.drop_last());
        segs.update(segs.len() - 1, segs.last().push(s.last()))
    }
}

/// There is always at least one segment.
pub proof fn lemma_segments_len(s: Seq<char>)
    ensures
        segments_of(s).len() >= 1,
    decreases s.len(),
{
    if s.len() > 0 {
        lemma_segments_len(s.drop_last());
    }
}

/// A text without `-` is a single segment: itself.
pub proof fn lemma_segments_no_dash(s: Seq<char>)
    requires
        forall|i: int| 0 <= i < s.len() ==> s[i] != '-',
    ensures
        segments_of(s) =~~= seq![s],
    decreases s.len(),
{
    if s.len() > 0 {
        lemma_segments_no_dash(s.drop_last());
        assert(s.drop_last().push(s.last()) =~= s);
    }
}

/// Splitting at the last `-`: the segments of `s` are the segments of the
/// part before it, followed by the (dash-free) part after it.
pub proof fn lemma_segments_split(s: Seq<char>, i: int)
    requires
        0 <= i < s.len(),
        s[i] == '-',
        forall|j: int| i < j < s.len() ==> s[j] != '-',
    ensures
        segments_of(s) =~~= segments_of(s.take(i)).push(s.skip(i + 1)),
    decreases s.len(),
{
    lemma_segments_len(s.take(i));
    if i == s.len() - 1 {
        assert(s.take(i) =~= s.drop_last());
        assert(s.skip(i + 1) =~= Seq::<char>::empty());
    } else {
        assert(s.last() != '-');
        lemma_segments_split(s.drop_last(), i);
        assert(s.drop_last().take(i) =~= s.take(i));
        let segs = segments_of(s.drop_last());
        assert(segs =~~= segments_of(s.take(i)).push(s.drop_last().skip(i + 1)));
        assert(s.drop_last().skip(i + 1).push(s.last()) =~= s.skip(i + 1));
    }
}

/// What the uppercase mapping of a character yields; see
/// [`char_to_uppercase`].
pub uninterp spec fn upper_of(c: char) -> Seq<char>;

/// Relies on `char::to_uppercase` from std: the result is the Unicode
/// uppercase mapping of the character, a function of the character alone.
/// An ASCII lowercase letter maps to its single ASCII uppercase letter;
/// a character without an uppercase mapping, such as a digit or `-`,
/// maps to itself.
#[verifier::external_body]
fn char_to_uppercase(c: char) -> (r: String)
    ensures
        r@ == upper_of(c),
        97 <= c as u32 && c as u32 <= 122 ==> r@.len() == 1 && r@[0] as u32 == c as u32 - 32,
        48 <= c as u32 && c as u32 <= 57 ==> r@ =~= seq![c],
        c == '-' ==> r@ =~= seq![c],
{
    c.to_uppercase().collect()
}

/// A segment with its first character uppercased and the remainder left
/// unchanged; an empty segment stays empty.
pub open spec fn capitalized(seg: Seq<char>) -> Seq<char> {
    if seg.len() == 0 {
        seg
    } else {
        upper_of(seg[0]) + seg.drop_first()
    }
}

/// The capitalized segments, joined with single spaces.
pub open spec fn join_capitalized(segs: Seq<Seq<char>>) -> Seq<char>
    decreases segs.len(),
{
    if segs.len() == 0 {
        Seq::empty()
    } else if segs.len() == 1 {
        capitalized(segs[0])
    } else {
        join_capitalized(segs.drop_last()) + seq![' '] + capitalized(segs.last())
    }
}

/// The human-readable variant: segments split on `-`, each capitalized,
/// joined with single spaces.
pub open spec fn readable_of(s: Seq<char>) -> Seq<char> {
    join_capitalized(segments_of(s))
}

/// Whether `c` is an ASCII lowercase letter or digit.
pub open spec fn is_plain_char(c: char) -> bool {
    (97 <= c as u32 && c as u32 <= 122) || (48 <= c as u32 && c as u32 <= 57)
}

/// A canonical dash-case name: non-empty, only lowercase letters, digits
/// and `-`, with `-` only as a single separator between non-empty
/// segments.
pub open spec fn plain_dash_case(s: Seq<char>) -> bool {
    &&& s.len() > 0
    &&& forall|i: int| 0 <= i < s.len() ==> (is_plain_char(s[i]) || s[i] == '-')
    &&& s[0] != '-'
    &&& s.last() != '-'
    &&& forall|i: int| 0 <= i < s.len() - 1 ==> !((#[trigger] s[i]) == '-' && s[i + 1] == '-')
}

/// A non-empty word holding no whitespace.
pub open spec fn plain_word(w: Seq<char>) -> bool {
    w.len() > 0 && forall|i: int| 0 <= i < w.len() ==> !is_ws(w[i])
}

/// A non-empty segment of lowercase letters and digits only.
pub open spec fn plain_segment(w: Seq<char>) -> bool {
    w.len() > 0 && forall|i: int| 0 <= i < w.len() ==> is_plain_char(w[i])
}

/// Capitalize a single segment: uppercase the first character, keep the
/// rest. A plain segment becomes a plain word.
fn capitalize_segment(seg: &str) -> (r: String)
    ensures
        r@ == capitalized(seg@),
        plain_segment(seg@) ==> plain_word(r@),
{
    let n = seg.unicode_len();
    if n == 0 {
        String::new()
    } else {
        let first = seg.get_char(0);
        let mut out = char_to_uppercase(first);
        let rest = seg.substring_char(1, n);
        out.append(rest);
        proof {
            assert(rest@ =~= seg@.drop_first());
            if plain_segment(seg@) {
                assert(is_plain_char(seg@[0]));
                assert forall|i: int| 0 <= i < out@.len() implies !is_ws(out@[i]) by {
                    if i < upper_of(seg@[0]).len() {
                        assert(out@[i] == upper_of(seg@[0])[i]);
                    } else {
                        assert(out@[i] == seg@.drop_first()[i - upper_of(seg@[0]).len()]);
                    }
                }
            }
        }
        out
    }
}

/// Build the readable variant, walking the segments from the last `-`
/// backwards. For a canonical dash-case input the result has exactly one
/// whitespace-separated word per segment.
fn build_readable(s: &str) -> (r: String)
    ensures
        r@ == readable_of(s@),
        plain_dash_case(s@) ==> {
            &&& r@.len() > 0
            &&& !is_ws(r@.last())
            &&& spec_word_count(r@) == segments_of(s@).len()
        },
    decreases s@.len(),
{
    let n = s.unicode_len();
    match find_last(s, '-') {
        None => {
            let out = capitalize_segment(s);
            proof {
                lemma_segments_no_dash(s@);
                if plain_dash_case(s@) {
                    assert(plain_segment(s@));
                    lemma_word_count_word(out@, true);
                }
            }
            out
        },
        Some(i) => {
            let head = s.substring_char(0, i);
            let mut out = build_readable(head);
            out.push(' ');
            let tail = s.substring_char(i + 1, n);
            let tail_cap = capitalize_segment(tail);
            out.append(tail_cap.as_str());
            proof {
                assert(head@ =~= s@.take(i as int));
                assert(tail@ =~= s@.skip(i as int + 1));
                lemma_segments_split(s@, i as int);
                lemma_segments_len(s@.take(i as int));
                let segs = segments_of(s@.take(i as int));
                assert(segs.push(s@.skip(i as int + 1)).drop_last() =~~= segs);
                assert(out@ =~= readable_of(head@) + (seq![' '] + tail_cap@));
                if plain_dash_case(s@) {
                    assert(s@[0] != '-');
                    assert(plain_dash_case(head@));
                    assert(plain_segment(tail@)) by {
                        assert(s@.last() != '-');
                        assert(i < s@.len() - 1);
                    }
                    lemma_word_count_concat(readable_of(head@), seq![' '] + tail_cap@, true);
                    assert(ws_state_after(readable_of(head@), true) == false);
                    assert((seq![' '] + tail_cap@)[0] == ' ');
                    assert((seq![' '] + tail_cap@).drop_first() =~= tail_cap@);
                    lemma_word_count_word(tail_cap@, true);
                    assert(out@.last() == tail_cap@[tail_cap@.len() - 1]);
                }
            }
            out
        },
    }
}

/// Generates derived program name formats from the dash-separated name:
/// the underscore variant and the human-readable variant. For a canonical
/// dash-case input, the readable variant's word count equals the number
/// of `-`-separated segments.
pub fn generate_program_name_variants(program_name_dash: &str) -> (r: (String, String))
    ensures
        r.0@ == underscore_of(program_name_dash@),
        r.1@ == readable_of(program_name_dash@),
        plain_dash_case(program_name_dash@) ==> spec_word_count(r.1@) == segments_of(
            program_name_dash@,
        ).len(),
{
    let n = program_name_dash.unicode_len();
    let mut underscore = String::new();
    let mut i: usize = 0;
    while i < n
        invariant
            i <= n,
            n == program_name_dash@.len(),
            underscore@ =~= underscore_of(program_name_dash@.take(i as int)),
        decreases n - i,
    {
        let c = program_name_dash.get_char(i);
        if c == '-' {
            underscore.push('_');
        } else {
            underscore.push(c);
        }
        proof {
            assert(underscore_of(program_name_dash@.take(i as int + 1)) =~= underscore_of(
                program_name_dash@.take(i as int),
            ).push(
                if program_name_dash@[i as int] == '-' {
                    '_'
                } else {
                    program_name_dash@[i as int]
                },
            ));
        }
        i = i + 1;
    }
    proof {
        assert(program_name_dash@.take(n as int) =~= program_name_dash@);
    }
    let readable = build_readable(program_name_dash);
    (underscore, readable)
}

} // verus!
