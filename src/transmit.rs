use vstd::prelude::*;

verus! {

/// The payload that one writer task sends: where a device is connected, an
/// owned copy of every byte of the request, in order, to go out in one write
/// call; where none is, nothing is sent.
pub fn send_payload(connected: bool, data: &[u8]) -> (r: Option<Vec<u8>>)
    ensures
        connected <==> r.is_some(),
        r.is_some() ==> r.unwrap()@ == data@,
{
    if !connected {
        return None;
    }
    let mut out: Vec<u8> = Vec::with_capacity(data.len());
    let mut i: usize = 0;
    while i < data.len()
        invariant
            i <= data@.len(),
            out@ == data@.subrange(0, i as int),
        decreases data@.len() - i,
    {
        out.push(data[i]);
        i = i + 1;
    }
    assert(out@ =~= data@);
    Some(out)
}

} // verus!
