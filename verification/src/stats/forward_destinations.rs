//! The share of the forwarded queries that each upstream handled.
//!
//! The engine answers with a list of destinations, each one a host name, an
//! address and a percentage, and ends the list with the end-of-message byte.

use crate::connection::{next_float, next_text, FtlConnection, TextRead};
use crate::error::{Expected, Found, FtlError};
use crate::string_map::{put, StringMap};
use crate::wire::{
    lemma_read_is_final, lemma_read_within, lemma_read_written_float, lemma_read_written_text,
    wire_float, wire_text, writable, END_OF_MESSAGE,
};
use vstd::prelude::*;
use vstd::string::StringExecFns;
use vstd::utf8::encode_utf8;

verus! {

/// The name of the command that asks the engine for the list.
pub const COMMAND: &'static str = "forward-dest";

/// The size in bytes of the buffer that strings are read into.
pub const BUFFER_SIZE: usize = 4096;

/// One destination as the engine reports it. The percentage is held as the
/// IEEE-754 bits of a 32-bit float.
#[derive(Clone, Debug, PartialEq, Eq)]
pub struct ForwardDestination {
    pub name: String,
    pub ip: String,
    pub percentage: u32,
}

/// A destination, with its strings as texts.
pub struct Destination {
    pub name: Seq<char>,
    pub ip: Seq<char>,
    pub percentage: u32,
}

impl View for ForwardDestination {
    type V = Destination;

    open spec fn view(&self) -> Destination {
        Destination { name: self.name@, ip: self.ip@, percentage: self.percentage }
    }
}

/// A list of destinations, each with its strings as texts.
pub open spec fn destinations(list: Seq<ForwardDestination>) -> Seq<Destination> {
    list.map_values(|d: ForwardDestination| d@)
}

/// The key of a destination: `name|ip`, or the name alone where the address is empty.
pub open spec fn composite_key(name: Seq<char>, ip: Seq<char>) -> Seq<char> {
    if ip.len() > 0 {
        name + seq!['|'] + ip
    } else {
        name
    }
}

/// What reading one destination gives: the destination, none at the end of
/// the list, or the error; and the number of bytes taken from the stream.
pub struct Step {
    pub outcome: Result<Option<Destination>, FtlError>,
    pub used: nat,
}

/// Reading one destination from `s`: its name, unless the end-of-message byte
/// stands there, then its address and its percentage. The end-of-message byte
/// in the place of the address is an error.
#[verifier::opaque]
pub open spec fn next_destination(s: Seq<u8>, capacity: nat) -> Step {
    match next_text(s, capacity) {
        Err(e) => Step { outcome: Err(e), used: 0 },
        Ok((None, n)) => Step { outcome: Ok(None), used: n },
        Ok((Some(name), n1)) => match next_text(s.skip(n1 as int), capacity) {
            Err(e) => Step { outcome: Err(e), used: n1 },
            Ok((None, n2)) => Step {
                outcome: Err(
                    FtlError::DecodeError {
                        expected: Expected::Text,
                        found: Found::Marker(END_OF_MESSAGE),
                    },
                ),
                used: n1 + n2,
            },
            Ok((Some(ip), n2)) => match next_float(s.skip((n1 + n2) as int)) {
                Err(e) => Step { outcome: Err(e), used: n1 + n2 },
                Ok((percentage, n3)) => Step {
                    outcome: Ok(Some(Destination { name, ip, percentage })),
                    used: n1 + n2 + n3,
                },
            },
        },
    }
}

/// A step never reaches past the end of the bytes, and one that does not fail
/// takes at least one byte.
pub proof fn lemma_step_within(s: Seq<u8>, capacity: nat)
    ensures
        next_destination(s, capacity).used <= s.len(),
        next_destination(s, capacity).outcome is Ok ==> next_destination(s, capacity).used >= 1,
{
    reveal(next_destination);
    lemma_read_within(s, capacity);
    if let Ok((_, n1)) = next_text(s, capacity) {
        let s1 = s.skip(n1 as int);
        lemma_read_within(s1, capacity);
        if let Ok((_, n2)) = next_text(s1, capacity) {
            lemma_read_within(s.skip((n1 + n2) as int), capacity);
        }
    }
}

/// What reading a list to its end gives: the list or the error, and the
/// number of bytes taken from the stream.
pub struct Drained {
    pub outcome: Result<Seq<Destination>, FtlError>,
    pub used: nat,
}

/// `drained`, with `list` read and `used` bytes taken before it.
pub open spec fn after(list: Seq<Destination>, used: nat, drained: Drained) -> Drained {
    Drained {
        outcome: match drained.outcome {
            Ok(tail) => Ok(list + tail),
            Err(e) => Err(e),
        },
        used: used + drained.used,
    }
}

/// Reading destinations from `s`, one after the other, until the list ends
/// or a read fails.
pub open spec fn drain(s: Seq<u8>, capacity: nat) -> Drained
    decreases s.len(),
{
    let step = next_destination(s, capacity);
    match step.outcome {
        Err(e) => Drained { outcome: Err(e), used: step.used },
        Ok(None) => Drained { outcome: Ok(seq![]), used: step.used },
        Ok(Some(destination)) => {
            proof {
                lemma_step_within(s, capacity);
            }
            after(seq![destination], step.used, drain(s.skip(step.used as int), capacity))
        },
    }
}

/// A text can be written and then read back into a buffer of `capacity` bytes.
pub open spec fn fits(text: Seq<char>, capacity: nat) -> bool {
    writable(text) && encode_utf8(text).len() <= capacity
}

/// A destination as it is written: name, address, percentage.
pub open spec fn wire_destination(d: Destination) -> Seq<u8> {
    wire_text(d.name) + wire_text(d.ip) + wire_float(d.percentage)
}

/// A list as it is written, one destination after the other, without the
/// byte that ends it.
pub open spec fn wire_list(list: Seq<Destination>) -> Seq<u8>
    decreases list.len(),
{
    if list.len() == 0 {
        seq![]
    } else {
        wire_destination(list.first()) + wire_list(list.drop_first())
    }
}

/// Round trip of one destination: written and read back it is the same
/// name, the same address and the same bits of the percentage, and reading
/// stops right behind it, whatever follows.
pub proof fn lemma_reads_written_destination(d: Destination, rest: Seq<u8>, capacity: nat)
    requires
        fits(d.name, capacity),
        fits(d.ip, capacity),
    ensures
        next_destination(wire_destination(d) + rest, capacity) == (Step {
            outcome: Ok(Some(d)),
            used: wire_destination(d).len(),
        }),
        (wire_destination(d) + rest).skip(wire_destination(d).len() as int) == rest,
{
    reveal(next_destination);
    let s = wire_destination(d) + rest;
    let n1 = wire_text(d.name).len() as int;
    let n2 = wire_text(d.ip).len() as int;
    let after_name = wire_text(d.ip) + wire_float(d.percentage) + rest;
    let after_ip = wire_float(d.percentage) + rest;
    assert(s =~= wire_text(d.name) + after_name);
    assert(after_name =~= wire_text(d.ip) + after_ip);
    lemma_read_written_text(d.name, after_name, capacity);
    lemma_read_written_text(d.ip, after_ip, capacity);
    lemma_read_written_float(d.percentage, rest);
    assert(s.skip(n1) =~= after_name);
    assert(s.skip(n1 + n2) =~= after_ip);
    assert(s.skip(wire_destination(d).len() as int) =~= rest);
}

/// A list that was written and ended with the end-of-message byte is read
/// back as it was written, each destination in its place, and reading stops
/// right behind the byte, whatever follows.
pub proof fn lemma_drains_written_list(list: Seq<Destination>, rest: Seq<u8>, capacity: nat)
    requires
        forall|i: int|
            0 <= i < list.len() ==> fits((#[trigger] list[i]).name, capacity) && fits(
                list[i].ip,
                capacity,
            ),
    ensures
        drain(wire_list(list) + seq![END_OF_MESSAGE] + rest, capacity) == (Drained {
            outcome: Ok(list),
            used: wire_list(list).len() + 1,
        }),
    decreases list.len(),
{
    let s = wire_list(list) + seq![END_OF_MESSAGE] + rest;
    if list.len() == 0 {
        reveal(next_destination);
        assert(s[0] == END_OF_MESSAGE);
        assert(drain(s, capacity).outcome == Ok::<_, FtlError>(Seq::<Destination>::empty()));
        assert(list =~= Seq::<Destination>::empty());
    } else {
        let d = list.first();
        let tail = list.drop_first();
        let behind = wire_list(tail) + seq![END_OF_MESSAGE] + rest;
        assert(s =~= wire_destination(d) + behind);
        lemma_reads_written_destination(d, behind, capacity);
        assert forall|i: int| 0 <= i < tail.len() implies fits(
            (#[trigger] tail[i]).name,
            capacity,
        ) && fits(tail[i].ip, capacity) by {
            assert(tail[i] == list[i + 1]);
        }
        lemma_drains_written_list(tail, rest, capacity);
        assert(seq![d] + tail =~= list);
    }
}

/// A list is read to its end only where the end-of-message byte stands: it is
/// the last byte that the reading takes.
pub proof fn lemma_drained_list_ends_at_sentinel(s: Seq<u8>, capacity: nat)
    ensures
        drain(s, capacity).outcome is Ok ==> 1 <= drain(s, capacity).used <= s.len() && s[drain(
            s,
            capacity,
        ).used - 1] == END_OF_MESSAGE,
    decreases s.len(),
{
    let step = next_destination(s, capacity);
    lemma_step_within(s, capacity);
    match step.outcome {
        Ok(None) => {
            reveal(next_destination);
        },
        Ok(Some(_)) => {
            lemma_drained_list_ends_at_sentinel(s.skip(step.used as int), capacity);
        },
        Err(_) => {},
    }
}

/// A stream that ends without the end-of-message byte in it gives an error,
/// never a shorter list.
pub proof fn lemma_no_sentinel_no_list(s: Seq<u8>, capacity: nat)
    requires
        forall|i: int| 0 <= i < s.len() ==> s[i] != END_OF_MESSAGE,
    ensures
        drain(s, capacity).outcome is Err,
{
    lemma_drained_list_ends_at_sentinel(s, capacity);
}

/// The reading failed because the stream ended short of a value.
pub open spec fn cut_short(outcome: Result<Seq<Destination>, FtlError>) -> bool {
    outcome matches Err(e) && e.is_incomplete()
}

/// Reading a list never reaches past the end of the bytes.
pub proof fn lemma_drain_within(s: Seq<u8>, capacity: nat)
    ensures
        drain(s, capacity).used <= s.len(),
    decreases s.len(),
{
    let step = next_destination(s, capacity);
    lemma_step_within(s, capacity);
    if step.outcome matches Ok(Some(_)) {
        lemma_drain_within(s.skip(step.used as int), capacity);
    }
}

/// One destination is read the same when more bytes come behind, unless the
/// stream had ended short of it.
pub proof fn lemma_step_is_final(s: Seq<u8>, more: Seq<u8>, capacity: nat)
    ensures
        !(next_destination(s, capacity).outcome matches Err(e) && e.is_incomplete())
            ==> next_destination(s + more, capacity) == next_destination(s, capacity),
{
    reveal(next_destination);
    lemma_read_within(s, capacity);
    lemma_read_is_final(s, more, capacity);
    if let Ok((Some(_), n1)) = next_text(s, capacity) {
        let s1 = s.skip(n1 as int);
        assert((s + more).skip(n1 as int) =~= s1 + more);
        lemma_read_within(s1, capacity);
        lemma_read_is_final(s1, more, capacity);
        if let Ok((Some(_), n2)) = next_text(s1, capacity) {
            let s2 = s.skip((n1 + n2) as int);
            assert((s + more).skip((n1 + n2) as int) =~= s2 + more);
            lemma_read_is_final(s2, more, capacity);
        }
    }
}

/// What was read of a stream is final: unless the reading failed because the
/// stream ended short of a value, the same list or the same error is read,
/// and as many bytes are taken, when more bytes come behind. So only a
/// reading that was cut short is worth another try on a longer stream.
pub proof fn lemma_drain_is_final(s: Seq<u8>, more: Seq<u8>, capacity: nat)
    ensures
        !cut_short(drain(s, capacity).outcome) ==> drain(s + more, capacity) == drain(s, capacity),
    decreases s.len(),
{
    let step = next_destination(s, capacity);
    lemma_step_within(s, capacity);
    lemma_step_is_final(s, more, capacity);
    if step.outcome matches Ok(Some(_)) {
        let behind = s.skip(step.used as int);
        assert((s + more).skip(step.used as int) =~= behind + more);
        lemma_drain_is_final(behind, more, capacity);
    }
}

/// A written list that is cut anywhere before its end, the end-of-message
/// byte included, gives an error that says the stream ended early, never a
/// shorter list.
pub proof fn lemma_cut_list_is_cut_short(list: Seq<Destination>, cut: int, capacity: nat)
    requires
        forall|i: int|
            0 <= i < list.len() ==> fits((#[trigger] list[i]).name, capacity) && fits(
                list[i].ip,
                capacity,
            ),
        0 <= cut <= wire_list(list).len(),
    ensures
        cut_short(drain((wire_list(list) + seq![END_OF_MESSAGE]).take(cut), capacity).outcome),
{
    let whole = wire_list(list) + seq![END_OF_MESSAGE];
    let front = whole.take(cut);
    let more = whole.skip(cut);
    assert(front + more =~= whole);
    assert(whole + Seq::<u8>::empty() =~= whole);
    lemma_drains_written_list(list, Seq::<u8>::empty(), capacity);
    lemma_drain_is_final(front, more, capacity);
    lemma_drain_within(front, capacity);
}

/// The pairs of key and percentage that a list gives, one destination put in
/// after the other.
pub open spec fn keyed_pairs(list: Seq<Destination>) -> Seq<(Seq<char>, u32)>
    decreases list.len(),
{
    if list.len() == 0 {
        seq![]
    } else {
        put(
            keyed_pairs(list.drop_last()),
            composite_key(list.last().name, list.last().ip),
            list.last().percentage,
        )
    }
}

/// The mapping from key to percentage that a list gives. Of two destinations
/// with one key the later one stays.
pub open spec fn keyed(list: Seq<Destination>) -> Map<Seq<char>, u32>
    decreases list.len(),
{
    if list.len() == 0 {
        Map::empty()
    } else {
        keyed(list.drop_last()).insert(
            composite_key(list.last().name, list.last().ip),
            list.last().percentage,
        )
    }
}

/// Makes the key of a destination.
pub fn key_for(name: String, ip: &str) -> (key: String)
    ensures
        key@ == composite_key(name@, ip@),
{
    if ip.is_empty() {
        name
    } else {
        let mut key = name;
        proof {
            reveal_strlit("|");
        }
        key.append("|");
        key.append(ip);
        assert("|"@ =~= seq!['|']);
        key
    }
}

/// Reads one destination from the connection, or finds the end of the list.
///
/// The end-of-message byte ends the list only where a name would start.
pub fn read_destination(con: &mut FtlConnection, buffer: &mut Vec<u8>) -> (r: Result<
    Option<ForwardDestination>,
    FtlError,
>)
    ensures
        final(buffer)@.len() == old(buffer)@.len(),
        final(con)@ == old(con)@.skip(
            next_destination(old(con)@, old(buffer)@.len() as nat).used as int,
        ),
        match next_destination(old(con)@, old(buffer)@.len() as nat).outcome {
            Ok(Some(destination)) => r matches Ok(Some(found)) && found@ == destination,
            Ok(None) => r == Ok::<Option<ForwardDestination>, FtlError>(None),
            Err(e) => r == Err::<Option<ForwardDestination>, _>(e),
        },
{
    let ghost here = con@;
    let ghost capacity = buffer@.len() as nat;
    proof {
        reveal(next_destination);
        lemma_read_within(here, capacity);
        assert(here.skip(0) =~= here);
    }
    // Read in the hostname, unless we are at the end of the list
    let name = match con.read_str(buffer) {
        Ok(TextRead::Text(name)) => name,
        Ok(TextRead::EndOfMessage) => {
            return Ok(None);
        },
        Err(e) => {
            return Err(e);
        },
    };
    let ghost n1 = next_text(here, capacity).unwrap().1 as int;
    proof {
        lemma_read_within(here.skip(n1), capacity);
    }
    let ip = match con.read_str(buffer) {
        Ok(TextRead::Text(ip)) => ip,
        Ok(TextRead::EndOfMessage) => {
            assert(here.skip(n1).skip(1) =~= here.skip(n1 + 1));
            return Err(
                FtlError::DecodeError {
                    expected: Expected::Text,
                    found: Found::Marker(END_OF_MESSAGE),
                },
            );
        },
        Err(e) => {
            return Err(e);
        },
    };
    let ghost n2 = next_text(here.skip(n1), capacity).unwrap().1 as int;
    proof {
        lemma_read_within(here.skip(n1 + n2), capacity);
        assert(here.skip(n1).skip(n2) =~= here.skip(n1 + n2));
    }
    let percentage = match con.read_f32() {
        Ok(percentage) => percentage,
        Err(e) => {
            return Err(e);
        },
    };
    let ghost n3 = next_float(here.skip(n1 + n2)).unwrap().1 as int;
    assert(here.skip(n1 + n2).skip(n3) =~= here.skip(n1 + n2 + n3));
    Ok(Some(ForwardDestination { name, ip, percentage }))
}

/// Reads destinations from the connection until the list ends.
///
/// A failed read ends the request with its error, and what was read is dropped.
pub fn read_destinations(con: &mut FtlConnection, buffer: &mut Vec<u8>) -> (r: Result<
    Vec<ForwardDestination>,
    FtlError,
>)
    ensures
        final(buffer)@.len() == old(buffer)@.len(),
        final(con)@ == old(con)@.skip(drain(old(con)@, old(buffer)@.len() as nat).used as int),
        match drain(old(con)@, old(buffer)@.len() as nat).outcome {
            Ok(list) => r matches Ok(found) && destinations(found@) == list,
            Err(e) => r == Err::<Vec<ForwardDestination>, _>(e),
        },
{
    let ghost start = con@;
    let ghost capacity = buffer@.len() as nat;
    let ghost mut taken: int = 0;
    let mut found: Vec<ForwardDestination> = Vec::new();
    assert(start.skip(0) =~= start);
    assert(destinations(found@) + Seq::<Destination>::empty() =~= destinations(found@));
    loop
        invariant
            start == old(con)@,
            capacity == old(buffer)@.len(),
            buffer@.len() == capacity,
            0 <= taken <= start.len(),
            con@ == start.skip(taken),
            drain(start, capacity) == after(
                destinations(found@),
                taken as nat,
                drain(con@, capacity),
            ),
        decreases con@.len(),
    {
        let ghost here = con@;
        let ghost step = next_destination(here, capacity);
        let ghost before = destinations(found@);
        proof {
            lemma_step_within(here, capacity);
            assert(start.skip(taken).skip(step.used as int) =~= start.skip(taken + step.used));
        }
        match read_destination(con, buffer) {
            Ok(Some(destination)) => {
                found.push(destination);
                proof {
                    let rest = drain(here.skip(step.used as int), capacity);
                    assert(destinations(found@) =~= before + seq![destination@]);
                    assert(rest.outcome is Ok ==> (before + seq![destination@])
                        + rest.outcome.unwrap() =~= before + (seq![destination@]
                        + rest.outcome.unwrap()));
                    taken = taken + step.used;
                }
            },
            Ok(None) => {
                assert(before + Seq::<Destination>::empty() =~= before);
                return Ok(found);
            },
            Err(e) => {
                return Err(e);
            },
        }
    }
}

/// Get the forward destinations
///
/// Reads the engine's list from the connection and gives the mapping from
/// each destination's key to its percentage, the keys in the order in which
/// they first came. No result is given for a list that could not be read to its end.
pub fn forward_destinations(con: &mut FtlConnection) -> (r: Result<StringMap<u32>, FtlError>)
    ensures
        final(con)@ == old(con)@.skip(drain(old(con)@, BUFFER_SIZE as nat).used as int),
        match drain(old(con)@, BUFFER_SIZE as nat).outcome {
            Ok(list) => {
                &&& r matches Ok(shares)
                &&& shares@ == keyed(list)
                &&& shares.pairs() == keyed_pairs(list)
            },
            Err(e) => r == Err::<StringMap<u32>, _>(e),
        },
{
    // Create a 4KiB string buffer
    let mut str_buffer = vec![0u8; 4096];
    let found = match read_destinations(con, &mut str_buffer) {
        Ok(found) => found,
        Err(e) => {
            return Err(e);
        },
    };
    let ghost list = destinations(found@);
    let mut shares: StringMap<u32> = StringMap::new();
    let mut i: usize = 0;
    assert(list.take(0) =~= Seq::<Destination>::empty());
    while i < found.len()
        invariant
            i <= found@.len(),
            list == destinations(found@),
            shares@ == keyed(list.take(i as int)),
            shares.pairs() == keyed_pairs(list.take(i as int)),
        decreases found@.len() - i,
    {
        let destination = &found[i];
        let key = key_for(destination.name.clone(), destination.ip.as_str());
        shares.insert(key, destination.percentage);
        proof {
            assert(list.take(i + 1).drop_last() =~= list.take(i as int));
            assert(list.take(i + 1).last() == destination@);
        }
        i += 1;
    }
    assert(list.take(found@.len() as int) =~= list);
    Ok(shares)
}

} // verus!
