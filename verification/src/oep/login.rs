//! The login message: the only message a session may send before it is
//! authenticated. The password travels as its 64-byte SHA-512 digest.

use crate::oep::decoder::{DecodeError, Decoder};
use crate::oep::oep_message::{MsgType, OepMessage};
use sha2::{Digest, Sha512};
use vstd::bytes::{lemma_auto_spec_u32_to_from_le_bytes, lemma_auto_spec_u64_to_from_le_bytes,
    spec_u32_from_le_bytes, spec_u32_to_le_bytes, spec_u64_from_le_bytes, spec_u64_to_le_bytes,
    u32_from_le_bytes, u32_to_le_bytes, u64_from_le_bytes, u64_to_le_bytes};
use vstd::prelude::*;
use vstd::slice::slice_subrange;

verus! {

/// Byte length of an encoded login message.
pub const LOGIN_SIZE: usize = 144;

/// The SHA-512 digest of a text, as the outside hash function computes it.
/// The result depends on the characters alone.
pub uninterp spec fn sha512_of(text: Seq<char>) -> Seq<u8>;

#[derive(Debug, Copy, Clone, PartialEq, Eq)]
pub struct Login {
    pub participant: u64,
    pub session_id: u32,
    pub gateway_id: u8,
    pub _padding: [u8; 3],
    /// user name bytes, terminated by a zero byte
    pub user: [u8; 64],
    /// SHA-512 digest of the free-text password
    pub password: [u8; 64],
}

impl Login {
    /// Builds a login message with the given user name copied into the
    /// zero-filled name field; the password digest starts as all zeroes.
    pub fn new(participant: u64, session_id: u32, gateway_id: u8, user: &[u8]) -> (r: Login)
        requires
            user@.len() < 63,
        ensures
            r.participant == participant,
            r.session_id == session_id,
            r.gateway_id == gateway_id,
            r._padding@ =~= seq![0u8, 0u8, 0u8],
            forall|i: int| 0 <= i < user@.len() ==> r.user@[i] == user@[i],
            forall|i: int| user@.len() <= i < 64 ==> r.user@[i] == 0u8,
            forall|i: int| 0 <= i < 64 ==> r.password@[i] == 0u8,
    {
        broadcast use vstd::array::group_array_axioms;

        let mut user_field: [u8; 64] = [0; 64];
        let mut i: usize = 0;
        while i < user.len()
            invariant
                i <= user@.len(),
                user@.len() < 63,
                forall|j: int| 0 <= j < i ==> user_field@[j] == user@[j],
                forall|j: int| i <= j < 64 ==> user_field@[j] == 0u8,
            decreases user@.len() - i,
        {
            user_field[i] = user[i];
            i += 1;
        }
        Login {
            participant,
            session_id,
            gateway_id,
            _padding: [0; 3],
            user: user_field,
            password: [0; 64],
        }
    }

    /// Replaces the password field by the SHA-512 digest of the given text.
    pub fn hash_text_to_password(&mut self, text: &str)
        ensures
            final(self).password@ == sha512_of(text@),
            *final(self) == (Login { password: final(self).password, ..*old(self) }),
    {
        self.password = Login::free_text_hash(text);
    }

    /// Relies on sha2's Sha512: the 64-byte digest of the text, a function
    /// of the characters alone.
    #[verifier::external_body]
    pub fn free_text_hash(text: &str) -> (r: [u8; 64])
        ensures
            r@ == sha512_of(text@),
    {
        let mut hasher = Sha512::new();
        hasher.update(text);
        hasher.finalize().as_slice().try_into().expect("Invalid slice")
    }
}

impl Decoder for Login {
    open spec fn wf(self) -> bool {
        true
    }

    open spec fn wire_size() -> usize {
        LOGIN_SIZE
    }

    open spec fn spec_encode(self) -> Seq<u8> {
        spec_u64_to_le_bytes(self.participant) + spec_u32_to_le_bytes(self.session_id) + seq![
            self.gateway_id,
        ] + self._padding@ + self.user@ + self.password@
    }

    open spec fn decodes_to(buf: Seq<u8>, r: Self) -> bool {
        &&& r.participant == spec_u64_from_le_bytes(buf.subrange(0, 8))
        &&& r.session_id == spec_u32_from_le_bytes(buf.subrange(8, 12))
        &&& r.gateway_id == buf[12]
        &&& r._padding@ == buf.subrange(13, 16)
        &&& r.user@ == buf.subrange(16, 80)
        &&& r.password@ == buf.subrange(80, 144)
    }

    fn encode(&self) -> (r: Vec<u8>) {
        let mut r = u64_to_le_bytes(self.participant);
        let mut t = u32_to_le_bytes(self.session_id);
        r.append(&mut t);
        r.push(self.gateway_id);
        r.extend_from_slice(self._padding.as_slice());
        r.extend_from_slice(self.user.as_slice());
        r.extend_from_slice(self.password.as_slice());
        proof {
            lemma_auto_spec_u64_to_from_le_bytes();
            lemma_auto_spec_u32_to_from_le_bytes();
            assert(r@ =~= self.spec_encode());
        }
        r
    }

    fn decode(buffer: &[u8]) -> (r: Result<Self, DecodeError>) {
        broadcast use vstd::array::group_array_axioms;

        if buffer.len() != LOGIN_SIZE {
            return Err(DecodeError);
        }
        let mut padding: [u8; 3] = [0; 3];
        let mut i: usize = 0;
        while i < 3
            invariant
                i <= 3,
                buffer@.len() == 144,
                forall|j: int| 0 <= j < i ==> padding@[j] == buffer@[13 + j],
            decreases 3 - i,
        {
            padding[i] = buffer[13 + i];
            i += 1;
        }
        let mut user: [u8; 64] = [0; 64];
        let mut i: usize = 0;
        while i < 64
            invariant
                i <= 64,
                buffer@.len() == 144,
                forall|j: int| 0 <= j < i ==> user@[j] == buffer@[16 + j],
            decreases 64 - i,
        {
            user[i] = buffer[16 + i];
            i += 1;
        }
        let mut password: [u8; 64] = [0; 64];
        let mut i: usize = 0;
        while i < 64
            invariant
                i <= 64,
                buffer@.len() == 144,
                forall|j: int| 0 <= j < i ==> password@[j] == buffer@[80 + j],
            decreases 64 - i,
        {
            password[i] = buffer[80 + i];
            i += 1;
        }
        let r = Login {
            participant: u64_from_le_bytes(slice_subrange(buffer, 0, 8)),
            session_id: u32_from_le_bytes(slice_subrange(buffer, 8, 12)),
            gateway_id: buffer[12],
            _padding: padding,
            user,
            password,
        };
        proof {
            assert(r._padding@ =~= buffer@.subrange(13, 16));
            assert(r.user@ =~= buffer@.subrange(16, 80));
            assert(r.password@ =~= buffer@.subrange(80, 144));
        }
        Ok(r)
    }

    proof fn round_trip(x: Self, r: Self) {
        broadcast use vstd::array::group_array_axioms;

        lemma_auto_spec_u64_to_from_le_bytes();
        lemma_auto_spec_u32_to_from_le_bytes();
        let e = x.spec_encode();
        assert(e.subrange(0, 8) =~= spec_u64_to_le_bytes(x.participant));
        assert(e.subrange(8, 12) =~= spec_u32_to_le_bytes(x.session_id));
        assert(e[12] == x.gateway_id);
        assert(e.subrange(13, 16) =~= x._padding@);
        assert(e.subrange(16, 80) =~= x.user@);
        assert(e.subrange(80, 144) =~= x.password@);
        assert(r._padding =~= x._padding);
        assert(r.user =~= x.user);
        assert(r.password =~= x.password);
    }
}

impl OepMessage for Login {
    open spec fn spec_message_type() -> MsgType {
        MsgType::Login
    }

    open spec fn spec_gateway_id(self) -> u8 {
        self.gateway_id
    }

    open spec fn spec_session_id(self) -> u32 {
        self.session_id
    }

    open spec fn spec_participant(self) -> u64 {
        self.participant
    }

    fn message_type(&self) -> (r: MsgType) {
        MsgType::Login
    }

    fn message_len(&self) -> (r: usize) {
        LOGIN_SIZE
    }

    fn get_gateway_id(&self) -> (r: u8) {
        self.gateway_id
    }

    fn get_session_id(&self) -> (r: u32) {
        self.session_id
    }

    fn get_participant(&self) -> (r: u64) {
        self.participant
    }
}

} // verus!
