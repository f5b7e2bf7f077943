//! The payloads of realtime messages: data, and a salt behind it.
//!
//! The swarm delivers messages with the same content only once. The salt makes two
//! messages with the same data differ.
use rand::Rng;
use vstd::prelude::*;

verus! {

/// The number of bytes of a salt.
pub const SALT_LEN: usize = 8;

/// Data with a salt behind it.
pub open spec fn salted(data: Seq<u8>, salt: Seq<u8>) -> Seq<u8> {
    data + salt
}

/// A payload without its salt.
pub open spec fn unsalted(payload: Seq<u8>) -> Seq<u8> {
    payload.take(payload.len() - SALT_LEN)
}

/// Whether a payload is the data with some salt behind it.
pub open spec fn carries(payload: Seq<u8>, data: Seq<u8>) -> bool {
    payload.len() == data.len() + SALT_LEN && unsalted(payload) == data
}

/// What is received is what was sent, whatever the salt.
pub proof fn law_data_is_received_as_sent(data: Seq<u8>, salt: Seq<u8>)
    requires
        salt.len() == SALT_LEN,
    ensures
        carries(salted(data, salt), data),
        unsalted(salted(data, salt)) == data,
{
    assert(unsalted(salted(data, salt)) =~= data);
}

/// Two messages are the same only if both data and salt are.
pub proof fn law_salt_keeps_messages_apart(
    data1: Seq<u8>,
    salt1: Seq<u8>,
    data2: Seq<u8>,
    salt2: Seq<u8>,
)
    requires
        salt1.len() == SALT_LEN,
        salt2.len() == SALT_LEN,
        salted(data1, salt1) == salted(data2, salt2),
    ensures
        data1 == data2,
        salt1 == salt2,
{
    law_data_is_received_as_sent(data1, salt1);
    law_data_is_received_as_sent(data2, salt2);
    assert(salted(data1, salt1).skip(data1.len() as int) =~= salt1);
    assert(salted(data2, salt2).skip(data2.len() as int) =~= salt2);
}

/// A payload is the data with eight bytes behind it, whatever these are.
pub proof fn law_payload_is_data_and_eight_bytes(payload: Seq<u8>, data: Seq<u8>)
    ensures
        carries(payload, data) <==> payload.len() == data.len() + 8 && forall|i: int|
            0 <= i < data.len() ==> payload[i] == data[i],
        payload.len() >= 8 ==> carries(payload, unsalted(payload)) && unsalted(payload)
            + payload.skip(payload.len() - 8) == payload,
{
    if payload.len() == data.len() + 8 {
        if forall|i: int| 0 <= i < data.len() ==> payload[i] == data[i] {
            assert(unsalted(payload) =~= data);
        }
        if carries(payload, data) {
            assert forall|i: int| 0 <= i < data.len() implies payload[i] == data[i] by {
                assert(unsalted(payload)[i] == payload[i]);
            }
        }
    }
    if payload.len() >= 8 {
        assert(unsalted(payload) + payload.skip(payload.len() - 8) =~= payload);
    }
}

/// Calls `rand::Rng::fill` of `rand::thread_rng`.
///
/// Trusted: nothing but that there are eight bytes, which their type says.
#[verifier::external_body]
fn random_salt() -> [u8; 8] {
    let mut salt = [0u8; 8];
    rand::thread_rng().fill(&mut salt[..]);
    salt
}

/// Puts a salt behind the data.
pub fn add_salt(data: Vec<u8>, salt: &[u8; 8]) -> (r: Vec<u8>)
    ensures
        r@ == salted(data@, salt@),
{
    let mut payload = data;
    let mut i: usize = 0;
    while i < 8
        invariant
            i <= 8,
            payload@ == data@ + salt@.take(i as int),
        decreases 8 - i,
    {
        payload.push(salt[i]);
        assert(payload@ =~= data@ + salt@.take(i + 1));
        i = i + 1;
    }
    assert(salt@.take(8) =~= salt@);
    payload
}

/// Puts a new random salt behind the data.
pub fn add_random_salt(data: Vec<u8>) -> (r: Vec<u8>)
    ensures
        carries(r@, data@),
{
    let salt = random_salt();
    proof {
        law_data_is_received_as_sent(data@, salt@);
    }
    add_salt(data, &salt)
}

/// Takes the salt off a payload.
pub fn strip_salt(payload: &Vec<u8>) -> (r: Vec<u8>)
    requires
        payload@.len() >= SALT_LEN,
    ensures
        r@ == unsalted(payload@),
{
    let mut data = payload.clone();
    assert(data@ =~= payload@);
    data.truncate(payload.len() - SALT_LEN);
    assert(data@ =~= unsalted(payload@));
    data
}

} // verus!
