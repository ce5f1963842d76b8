use vstd::prelude::*;
use vstd::string::StringExecFns;
use vstd::utf8::{decode_utf8, valid_utf8};

verus! {

/// `String::from_utf8` of std: the bytes as a string when they are valid
/// UTF-8 (the documented condition of success), with the characters they
/// encode; `None` otherwise.
#[verifier::external_body]
pub(crate) fn utf8_to_string(bytes: Vec<u8>) -> (res: Option<String>)
    ensures
        res is Some <==> valid_utf8(bytes@),
        res matches Some(s) ==> s@ == decode_utf8(bytes@),
{
    String::from_utf8(bytes).ok()
}

/// `String::push` of std: appends one character.
#[verifier::external_body]
pub(crate) fn push_char(s: &mut String, c: char)
    ensures
        final(s)@ == old(s)@.push(c),
{
    s.push(c)
}

/// Appends the characters of `t` to `s`.
pub(crate) fn push_str(s: &mut String, t: &str)
    ensures
        final(s)@ == old(s)@ + t@,
{
    s.append(t);
}

/// The strings of `parts`, one after another, with a `sep` between each
/// two neighbours (`sep` is not put before the first nor after the last).
pub open spec fn join_with(parts: Seq<Seq<char>>, sep: char) -> Seq<char>
    decreases parts.len(),
{
    if parts.len() == 0 {
        Seq::empty()
    } else if parts.len() == 1 {
        parts[0]
    } else {
        join_with(parts.drop_last(), sep).push(sep) + parts.last()
    }
}

/// The number of characters in all of `parts` together.
pub open spec fn total_len(parts: Seq<Seq<char>>) -> int
    decreases parts.len(),
{
    if parts.len() == 0 {
        0
    } else {
        total_len(parts.drop_last()) + parts.last().len()
    }
}

proof fn lemma_total_len_step(parts: Seq<Seq<char>>, k: int)
    requires
        0 <= k < parts.len(),
    ensures
        total_len(parts.take(k + 1)) == total_len(parts.take(k)) + parts[k].len(),
{
    assert(parts.take(k + 1).drop_last() =~= parts.take(k));
    assert(parts.take(k + 1).last() == parts[k]);
}

proof fn lemma_total_len_prefix(parts: Seq<Seq<char>>, k: int)
    requires
        0 <= k <= parts.len(),
    ensures
        0 <= total_len(parts.take(k)) <= total_len(parts),
    decreases parts.len() - k,
{
    if k == parts.len() {
        assert(parts.take(k) =~= parts);
        lemma_total_len_nonneg(parts);
    } else {
        lemma_total_len_prefix(parts, k + 1);
        lemma_total_len_step(parts, k);
        lemma_total_len_nonneg(parts.take(k));
    }
}

proof fn lemma_total_len_nonneg(parts: Seq<Seq<char>>)
    ensures
        total_len(parts) >= 0,
    decreases parts.len(),
{
    if parts.len() > 0 {
        lemma_total_len_nonneg(parts.drop_last());
    }
}

/// Joining keeps every part whole and in its place: part `k` starts after
/// the characters of the parts before it and one separator for each of
/// them, a separator follows every part but the last, and nothing else is
/// in the result.
pub proof fn lemma_join_layout(parts: Seq<Seq<char>>, sep: char)
    requires
        parts.len() >= 1,
    ensures
        join_with(parts, sep).len() == total_len(parts) + parts.len() - 1,
        forall|k: int, c: int|
            0 <= k < parts.len() && 0 <= c < parts[k].len() ==> #[trigger] join_with(parts, sep)[total_len(
                parts.take(k),
            ) + k + c] == #[trigger] parts[k][c],
        forall|k: int|
            0 <= k < parts.len() - 1 ==> join_with(parts, sep)[#[trigger] total_len(parts.take(k + 1)) + k]
                == sep,
    decreases parts.len(),
{
    let n = parts.len() as int;
    let j = join_with(parts, sep);
    if n == 1 {
        assert(parts.take(0) =~= Seq::<Seq<char>>::empty());
        assert(parts.drop_last() =~= Seq::<Seq<char>>::empty());
        assert(total_len(parts.drop_last()) == 0);
        assert(total_len(parts) == parts[0].len());
        assert(j == parts[0]);
    } else {
        let d = parts.drop_last();
        lemma_join_layout(d, sep);
        let jd = join_with(d, sep);
        assert(j == jd.push(sep) + parts.last());
        assert(total_len(parts) == total_len(d) + parts.last().len());
        assert forall|k: int, c: int|
            0 <= k < n && 0 <= c < parts[k].len() implies #[trigger] j[total_len(parts.take(k)) + k + c]
                == #[trigger] parts[k][c] by {
            if k < n - 1 {
                assert(parts.take(k) =~= d.take(k));
                assert(d[k] == parts[k]);
                lemma_total_len_step(d, k);
                lemma_total_len_prefix(d, k + 1);
                lemma_total_len_prefix(d, k);
                assert(jd[total_len(d.take(k)) + k + c] == d[k][c]);
            } else {
                assert(parts.take(k) =~= d);
                assert(parts[k] == parts.last());
                lemma_total_len_nonneg(d);
            }
        }
        assert forall|k: int| 0 <= k < n - 1 implies j[#[trigger] total_len(parts.take(k + 1)) + k]
            == sep by {
            if k < n - 2 {
                assert(parts.take(k + 1) =~= d.take(k + 1));
                lemma_total_len_step(d, k + 1);
                lemma_total_len_prefix(d, k + 2);
                lemma_total_len_prefix(d, k + 1);
                lemma_total_len_nonneg(d);
                assert(jd[total_len(d.take(k + 1)) + k] == sep);
            } else {
                assert(parts.take(k + 1) =~= d);
                lemma_total_len_nonneg(d);
            }
        }
    }
}

} // verus!
