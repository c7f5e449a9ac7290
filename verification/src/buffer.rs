//! Writing to the output buffer.

use vstd::prelude::*;

verus! {

/// Appends `text` to `buf`. The call goes to `source_map::ToString::push_str`
/// as `String` implements it, which appends the text and does nothing else.
#[verifier::external_body]
pub(crate) fn push_str(buf: &mut String, text: &str)
    ensures
        final(buf)@ == old(buf)@ + text@,
{
    source_map::ToString::push_str(buf, text)
}

/// A line break.
pub open spec fn new_line() -> Seq<char> {
    seq!['\n']
}

/// Ends the line in `buf`. The call goes to
/// `source_map::ToString::push_new_line` as `String` implements it, which
/// appends one line feed and does nothing else.
#[verifier::external_body]
pub(crate) fn push_new_line(buf: &mut String)
    ensures
        final(buf)@ == old(buf)@ + new_line(),
{
    source_map::ToString::push_new_line(buf)
}

/// `depth` tabs: the white space in front of a line at that depth.
pub open spec fn indentation(depth: nat) -> Seq<char>
    decreases depth,
{
    if depth == 0 {
        Seq::empty()
    } else {
        indentation((depth - 1) as nat) + "\t"@
    }
}

/// Appends `depth` tabs to `buf`.
pub fn push_indentation(buf: &mut String, depth: usize)
    ensures
        final(buf)@ == old(buf)@ + indentation(depth as nat),
{
    let mut done: usize = 0;
    while done < depth
        invariant
            done <= depth,
            buf@ == old(buf)@ + indentation(done as nat),
        decreases depth - done,
    {
        push_str(buf, "\t");
        done = done + 1;
        assert(buf@ == old(buf)@ + indentation(done as nat)) by {
            assert(indentation(done as nat) == indentation((done - 1) as nat) + "\t"@);
            assert(old(buf)@ + indentation((done - 1) as nat) + "\t"@ == old(buf)@ + (
            indentation((done - 1) as nat) + "\t"@));
        }
    }
}

} // verus!
