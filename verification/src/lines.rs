//! The first line of a text.

use vstd::prelude::*;
use vstd::std_specs::iter::IteratorSpec;
use vstd::string::*;

verus! {

/// The number of characters before the first line feed of `s`, or the length
/// of `s` where it has none.
pub open spec fn line_length(s: Seq<char>) -> int
    decreases s.len(),
{
    if s.len() == 0 || s[0] == '\n' {
        0
    } else {
        1 + line_length(s.drop_first())
    }
}

/// The first line of `s`: everything before its first line feed, or the whole
/// of `s` where it has none.
pub open spec fn leading_line(s: Seq<char>) -> Seq<char> {
    s.take(line_length(s))
}

/// The first line ends at the first line feed and nowhere before it.
pub proof fn lemma_line_length(s: Seq<char>)
    ensures
        0 <= line_length(s) <= s.len(),
        forall|j: int| 0 <= j < line_length(s) ==> s[j] != '\n',
        line_length(s) < s.len() ==> s[line_length(s)] == '\n',
    decreases s.len(),
{
    if s.len() == 0 || s[0] == '\n' {
    } else {
        let rest = s.drop_first();
        lemma_line_length(rest);
        assert forall|j: int| 0 <= j < line_length(s) implies s[j] != '\n' by {
            if j > 0 {
                assert(rest[j - 1] == s[j]);
            }
        }
    }
}

/// A place that no line feed comes before, and that is the end of the text
/// or a line feed itself, is where the first line ends.
pub proof fn lemma_line_length_is(s: Seq<char>, k: int)
    requires
        0 <= k <= s.len(),
        forall|j: int| 0 <= j < k ==> s[j] != '\n',
        k < s.len() ==> s[k] == '\n',
    ensures
        line_length(s) == k,
{
    lemma_line_length(s);
}

/// Returns the first line of `content`, without the line feed that ends it.
/// A text without a line feed is its own first line.
pub fn first_line(content: &str) -> (res: &str)
    ensures
        res@ == leading_line(content@),
{
    broadcast use {axiom_spec_iter, next_postcondition};

    let total = content.unicode_len();
    let mut count: usize = 0;
    let mut rest = content.chars();
    loop
        invariant_except_break
            count <= total,
            rest.obeys_prophetic_iter_laws(),
            rest.remaining() == content@.skip(count as int),
            forall|j: int| 0 <= j < count ==> content@[j] != '\n',
        invariant
            total == content@.len(),
        ensures
            count <= total,
            forall|j: int| 0 <= j < count ==> content@[j] != '\n',
            count < total ==> content@[count as int] == '\n',
        decreases total - count,
    {
        match rest.next() {
            Some(c) => {
                if c == '\n' {
                    break ;
                }
                count += 1;
            },
            None => {
                break ;
            },
        }
    }
    proof {
        lemma_line_length_is(content@, count as int);
    }
    content.substring_char(0, count)
}

} // verus!
