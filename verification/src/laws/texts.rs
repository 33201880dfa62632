//! Laws on the texts by which streams are known and records are refused.

use crate::errors::{columns_limit_message, upto_discard_message};
use crate::settings::{kind_name, stream_path, StreamId, StreamType};
use crate::text::{decimal, decimal_tells_numbers_apart};
use vstd::prelude::*;

verus! {

/// Streams that differ in just one of organization, kind and name have different paths.
pub proof fn paths_tell_streams_apart(a: StreamId, b: StreamId)
    requires
        stream_path(a) == stream_path(b),
    ensures
        kind_name(a.stream_type) == kind_name(b.stream_type) && a.stream_name@ == b.stream_name@
            ==> a.org_id@ == b.org_id@,
        a.org_id@ == b.org_id@ && a.stream_name@ == b.stream_name@ ==> kind_name(a.stream_type)
            == kind_name(b.stream_type),
        a.org_id@ == b.org_id@ && kind_name(a.stream_type) == kind_name(b.stream_type)
            ==> a.stream_name@ == b.stream_name@,
{
    let slash = "/"@;
    let (org_a, kind_a, name_a) = (a.org_id@, kind_name(a.stream_type), a.stream_name@);
    let (org_b, kind_b, name_b) = (b.org_id@, kind_name(b.stream_type), b.stream_name@);
    let path = stream_path(a);
    lemma_parts(org_a, slash, kind_a, slash, name_a);
    lemma_parts(org_b, slash, kind_b, slash, name_b);
}

/// Log streams are of the kind "logs", and every other kind goes by its name.
pub proof fn kinds_go_by_their_names(kind: StreamType)
    ensures
        kind is Logs ==> kind_name(kind) == "logs"@,
        kind matches StreamType::Other(name) ==> kind_name(kind) == name@,
{
}

/// A path is made of organization, kind and name, in this order, with a slash between them.
pub proof fn path_has_three_parts(stream: StreamId)
    ensures
        ({
            let path = stream_path(stream);
            let org = stream.org_id@;
            let kind = kind_name(stream.stream_type);
            let name = stream.stream_name@;
            let at_kind = org.len() + 1int;
            let at_name = at_kind + kind.len() + 1;
            &&& path.len() == at_name + name.len()
            &&& path.subrange(0, org.len() as int) == org
            &&& path[at_kind - 1] == '/'
            &&& path.subrange(at_kind, at_kind + kind.len()) == kind
            &&& path[at_name - 1] == '/'
            &&& path.subrange(at_name, path.len() as int) == name
        }),
{
    reveal_strlit("/");
    lemma_parts(
        stream.org_id@,
        "/"@,
        kind_name(stream.stream_type),
        "/"@,
        stream.stream_name@,
    );
}

proof fn lemma_parts(a: Seq<char>, b: Seq<char>, c: Seq<char>, d: Seq<char>, e: Seq<char>)
    ensures
        ({
            let all = a + b + c + d + e;
            let at_b = a.len() as int;
            let at_c = at_b + b.len();
            let at_d = at_c + c.len();
            let at_e = at_d + d.len();
            &&& all.len() == at_e + e.len()
            &&& all.subrange(0, at_b) == a
            &&& all.subrange(at_b, at_c) == b
            &&& all.subrange(at_c, at_d) == c
            &&& all.subrange(at_d, at_e) == d
            &&& all.subrange(at_e, all.len() as int) == e
        }),
{
    let all = a + b + c + d + e;
    let at_b = a.len() as int;
    let at_c = at_b + b.len();
    let at_d = at_c + c.len();
    let at_e = at_d + d.len();
    assert(all.subrange(0, at_b) =~= a);
    assert(all.subrange(at_b, at_c) =~= b);
    assert(all.subrange(at_c, at_d) =~= c);
    assert(all.subrange(at_d, at_e) =~= d);
    assert(all.subrange(at_e, all.len() as int) =~= e);
}

/// The message for too many columns opens with the number found, the stream and the limit, and ends
/// alike for all.
pub proof fn columns_limit_message_names_all(
    stream: Seq<char>,
    found: int,
    limit: int,
    other_stream: Seq<char>,
    other_found: int,
    other_limit: int,
)
    ensures
        ({
            let message = columns_limit_message(stream, found, limit);
            let other = columns_limit_message(other_stream, other_found, other_limit);
            let opening = "Got "@ + decimal(found) + " columns for stream "@ + stream + ", only "@
                + decimal(limit);
            let other_opening = "Got "@ + decimal(other_found) + " columns for stream "@
                + other_stream + ", only "@ + decimal(other_limit);
            &&& message.len() >= opening.len()
            &&& message.take(opening.len() as int) == opening
            &&& message.skip(opening.len() as int) == other.skip(other_opening.len() as int)
            &&& stream == other_stream && limit == other_limit && message == other ==> found
                == other_found
            &&& stream == other_stream && found == other_found && message == other ==> limit
                == other_limit
            &&& found == other_found && limit == other_limit && message == other ==> stream
                == other_stream
        }),
{
    let message = columns_limit_message(stream, found, limit);
    let other = columns_limit_message(other_stream, other_found, other_limit);
    let opening = "Got "@ + decimal(found) + " columns for stream "@ + stream + ", only "@
        + decimal(limit);
    let other_opening = "Got "@ + decimal(other_found) + " columns for stream "@ + other_stream
        + ", only "@ + decimal(other_limit);
    assert(message.take(opening.len() as int) =~= opening);
    assert(message.skip(opening.len() as int) =~= other.skip(other_opening.len() as int));
    if message == other {
        let at = "Got "@.len() as int;
        let size = decimal(found).len() as int;
        let at_stream = at + size + " columns for stream "@.len();
        let at_limit = at_stream + stream.len() + ", only "@.len();
        assert(message.subrange(at, at + size) =~= decimal(found));
        if stream == other_stream && limit == other_limit {
            assert(other.subrange(at, at + size) =~= decimal(other_found));
            decimal_tells_numbers_apart(found, other_found);
        }
        if found == other_found && limit == other_limit {
            assert(message.subrange(at_stream, at_stream + stream.len()) =~= stream);
            assert(other.subrange(at_stream, at_stream + stream.len()) =~= other_stream);
        }
        if stream == other_stream && found == other_found {
            let end = at_limit + decimal(limit).len();
            assert(message.subrange(at_limit, end) =~= decimal(limit));
            assert(other.subrange(at_limit, end) =~= decimal(other_limit));
            decimal_tells_numbers_apart(limit, other_limit);
        }
    }
}

/// The message for records that are too old opens with the hours of the window, and ends alike for
/// all.
pub proof fn discard_message_names_the_hours(hours: int, other_hours: int)
    ensures
        ({
            let message = upto_discard_message(hours);
            let other = upto_discard_message(other_hours);
            let opening = "Too old data, only last "@ + decimal(hours);
            let other_opening = "Too old data, only last "@ + decimal(other_hours);
            &&& message.len() >= opening.len()
            &&& message.take(opening.len() as int) == opening
            &&& message.skip(opening.len() as int) == other.skip(other_opening.len() as int)
            &&& message == other ==> hours == other_hours
        }),
{
    let message = upto_discard_message(hours);
    let other = upto_discard_message(other_hours);
    let opening = "Too old data, only last "@ + decimal(hours);
    let other_opening = "Too old data, only last "@ + decimal(other_hours);
    assert(message.take(opening.len() as int) =~= opening);
    assert(message.skip(opening.len() as int) =~= other.skip(other_opening.len() as int));
    if message == other {
        let at = "Too old data, only last "@.len() as int;
        let end = at + decimal(hours).len();
        assert(message.subrange(at, end) =~= decimal(hours));
        assert(other.subrange(at, end) =~= decimal(other_hours));
        decimal_tells_numbers_apart(hours, other_hours);
    }
}

} // verus!
