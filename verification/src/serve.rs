//! What a handler reads off a request before it answers: whether the client
//! asks for the connection to be closed, and the parts of the path that name
//! the file.

use crate::codec::{target_path, uri_path};
use crate::message::{headers_view, HeaderView, Request, RequestView};
use vstd::prelude::*;

verus! {

/// An ASCII capital as its small letter, any other byte as itself.
pub open spec fn lower(b: u8) -> u8 {
    if 65 <= b && b <= 90 {
        (b + 32) as u8
    } else {
        b
    }
}

/// Whether two names are the same but for the case of ASCII letters.
pub open spec fn same_ignoring_case(a: Seq<u8>, b: Seq<u8>) -> bool {
    a.len() == b.len() && forall|i: int| 0 <= i < a.len() ==> lower(#[trigger] a[i]) == lower(b[i])
}

/// `connection`
pub open spec fn connection_name() -> Seq<u8> {
    seq![99u8, 111, 110, 110, 101, 99, 116, 105, 111, 110]
}

/// `close`
pub open spec fn close_value() -> Seq<u8> {
    seq![99u8, 108, 111, 115, 101]
}

/// The value of the first header with the given name, ignoring case.
pub open spec fn first_value(headers: Seq<HeaderView>, name: Seq<u8>) -> Option<Seq<u8>>
    decreases headers.len(),
{
    if headers.len() == 0 {
        None
    } else if same_ignoring_case(headers[0].name, name) {
        Some(headers[0].value)
    } else {
        first_value(headers.drop_first(), name)
    }
}

/// Whether a request asks for the connection to be closed after its answer:
/// its first `Connection` header says exactly `close`.
pub open spec fn asks_to_close(request: RequestView) -> bool {
    first_value(request.headers, connection_name()) == Some(close_value())
}

/// Whether `a` and `b` are the same name but for the case of ASCII letters.
pub fn same_name(a: &Vec<u8>, b: &Vec<u8>) -> (r: bool)
    ensures
        r == same_ignoring_case(a@, b@),
{
    if a.len() != b.len() {
        return false;
    }
    let mut i: usize = 0;
    while i < a.len()
        invariant
            i <= a.len(),
            a.len() == b.len(),
            forall|j: int| 0 <= j < i ==> lower(#[trigger] a@[j]) == lower(b@[j]),
        decreases a.len() - i,
    {
        let x: u8 = a[i];
        let y: u8 = b[i];
        let lx: u8 = if 65 <= x && x <= 90 { x + 32 } else { x };
        let ly: u8 = if 65 <= y && y <= 90 { y + 32 } else { y };
        if lx != ly {
            return false;
        }
        i += 1;
    }
    true
}

/// Whether `a` and `b` hold the same bytes.
pub fn same_bytes(a: &Vec<u8>, b: &Vec<u8>) -> (r: bool)
    ensures
        r == (a@ == b@),
{
    if a.len() != b.len() {
        return false;
    }
    let mut i: usize = 0;
    while i < a.len()
        invariant
            i <= a.len(),
            a.len() == b.len(),
            forall|j: int| 0 <= j < i ==> a@[j] == b@[j],
        decreases a.len() - i,
    {
        if a[i] != b[i] {
            return false;
        }
        i += 1;
    }
    assert(a@ =~= b@);
    true
}

/// Whether the request asks for the connection to be closed after its
/// answer.
pub fn wants_close(request: &Request) -> (r: bool)
    ensures
        r == asks_to_close(request@),
{
    let name: Vec<u8> = vec![99u8, 111, 110, 110, 101, 99, 116, 105, 111, 110];
    let close: Vec<u8> = vec![99u8, 108, 111, 115, 101];
    let ghost all = headers_view(request.headers@);
    let mut i: usize = 0;
    assert(all.skip(0) =~= all);
    while i < request.headers.len()
        invariant
            i <= request.headers.len(),
            all == headers_view(request.headers@),
            name@ == connection_name(),
            close@ == close_value(),
            first_value(all, name@) == first_value(all.skip(i as int), name@),
        decreases request.headers.len() - i,
    {
        proof {
            let rest = all.skip(i as int);
            assert(rest[0] == request.headers@[i as int]@);
            assert(rest.drop_first() =~= all.skip(i + 1));
        }
        if same_name(&request.headers[i].name, &name) {
            return same_bytes(&request.headers[i].value, &close);
        }
        i += 1;
    }
    false
}

/// The pieces of a path between its slashes, in their order. A path with
/// `n` slashes has `n + 1` pieces, some of which may be empty.
pub open spec fn segments(path: Seq<u8>) -> Seq<Seq<u8>>
    decreases path.len(),
{
    if path.len() == 0 {
        seq![Seq::<u8>::empty()]
    } else if path.last() == 47 {
        segments(path.drop_last()).push(Seq::<u8>::empty())
    } else {
        let before = segments(path.drop_last());
        before.drop_last().push(before.last().push(path.last()))
    }
}

/// Whether a piece of a path names something below: it is not empty, not
/// `.` and not `..`.
pub open spec fn names_entry(segment: Seq<u8>) -> bool {
    segment.len() > 0 && segment != seq![46u8] && segment != seq![46u8, 46u8]
}

/// Those of the pieces that name something below, in their order.
pub open spec fn entries(pieces: Seq<Seq<u8>>) -> Seq<Seq<u8>>
    decreases pieces.len(),
{
    if pieces.len() == 0 {
        Seq::empty()
    } else if names_entry(pieces.last()) {
        entries(pieces.drop_last()).push(pieces.last())
    } else {
        entries(pieces.drop_last())
    }
}

/// The parts of a target's path that name the file: the pieces between
/// the slashes of the path that `http` reads in the target, without the
/// empty ones, `.` and `..`; none where `http` does not take the target.
pub open spec fn path_parts_of(target: Seq<u8>) -> Seq<Seq<u8>> {
    match uri_path(target) {
        Some(path) => entries(segments(path)),
        None => Seq::empty(),
    }
}

/// Byte strings by their views.
pub open spec fn parts_view(parts: Seq<Vec<u8>>) -> Seq<Seq<u8>> {
    parts.map_values(|p: Vec<u8>| p@)
}

/// Whether a piece of a path names something below.
pub fn is_entry(segment: &Vec<u8>) -> (r: bool)
    ensures
        r == names_entry(segment@),
{
    if segment.len() == 0 {
        return false;
    }
    if segment.len() == 1 && segment[0] == 46 {
        assert(segment@ =~= seq![46u8]);
        return false;
    }
    if segment.len() == 2 && segment[0] == 46 && segment[1] == 46 {
        assert(segment@ =~= seq![46u8, 46u8]);
        return false;
    }
    proof {
        if segment@ == seq![46u8] {
            assert(seq![46u8].len() == 1 && seq![46u8][0] == 46);
        }
        if segment@ == seq![46u8, 46u8] {
            assert(seq![46u8, 46u8].len() == 2 && seq![46u8, 46u8][0] == 46 && seq![46u8, 46u8][1]
                == 46);
        }
    }
    true
}

/// The pieces of a path that name something below, in their order.
pub fn parts_of_path(path: &Vec<u8>) -> (parts: Vec<Vec<u8>>)
    ensures
        parts_view(parts@) == entries(segments(path@)),
{
    let mut parts: Vec<Vec<u8>> = Vec::new();
    let mut current: Vec<u8> = Vec::new();
    let ghost mut closed: Seq<Seq<u8>> = Seq::empty();
    let mut i: usize = 0;
    assert(path@.take(0) =~= Seq::<u8>::empty());
    assert(parts_view(parts@) =~= entries(closed));
    while i < path.len()
        invariant
            i <= path.len(),
            segments(path@.take(i as int)) == closed.push(current@),
            parts_view(parts@) == entries(closed),
        decreases path.len() - i,
    {
        let b: u8 = path[i];
        proof {
            let now = path@.take(i + 1);
            assert(now.drop_last() =~= path@.take(i as int));
            assert(now.last() == b);
            assert(closed.push(current@).drop_last() =~= closed);
            assert(closed.push(current@).last() == current@);
        }
        if b == 47 {
            let ghost before = parts@;
            if is_entry(&current) {
                parts.push(current);
                assert(parts_view(parts@) =~= parts_view(before).push(current@));
            }
            proof {
                closed = closed.push(current@);
            }
            current = Vec::new();
        } else {
            current.push(b);
        }
        i += 1;
    }
    proof {
        assert(path@.take(i as int) =~= path@);
        let done = closed.push(current@);
        assert(done.drop_last() =~= closed);
        assert(done.last() == current@);
    }
    let ghost before = parts@;
    if is_entry(&current) {
        parts.push(current);
        assert(parts_view(parts@) =~= parts_view(before).push(current@));
    }
    parts
}

/// The parts of the target's path that name the file, in their order.
pub fn path_parts(target: &Vec<u8>) -> (parts: Vec<Vec<u8>>)
    ensures
        parts_view(parts@) == path_parts_of(target@),
{
    match target_path(target.as_slice()) {
        Some(path) => parts_of_path(&path),
        None => {
            let parts: Vec<Vec<u8>> = Vec::new();
            assert(parts_view(parts@) =~= Seq::<Seq<u8>>::empty());
            parts
        },
    }
}

} // verus!
