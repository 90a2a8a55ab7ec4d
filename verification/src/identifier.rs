//! Namespaced identifiers: `namespace:value`, travelling as one
//! length-prefixed string.  Reading splits at the first colon; a bare value
//! gets the default namespace.

use vstd::prelude::*;
use vstd::slice::slice_subrange;
use vstd::utf8::{decode_utf8, valid_utf8};

use crate::protocol::{
    bytes_to_string, string_decodable, string_decoded_len, string_encodable, string_encoding,
    string_payload, ReadError, Readable, WriteError, Writeable,
};
use crate::varint::{varint_encoding, write_varint};

verus! {

/// A namespaced identifier.
#[derive(Debug, Clone)]
pub struct Identifier {
    pub namespace: String,
    pub value: String,
}

/// `k` is the first colon in `raw`.
pub open spec fn is_first_colon(raw: Seq<u8>, k: int) -> bool {
    &&& 0 <= k < raw.len()
    &&& raw[k] == 58u8
    &&& forall|j: int| 0 <= j < k ==> raw[j] != 58u8
}

/// Some byte of `raw` is a colon.
pub open spec fn has_colon(raw: Seq<u8>) -> bool {
    exists|k: int| is_first_colon(raw, k)
}

/// The position of the first colon of `raw` (unique when one is there).
pub open spec fn first_colon(raw: Seq<u8>) -> int {
    choose|k: int| is_first_colon(raw, k)
}

/// The first colon's position is unique.
pub proof fn lemma_first_colon_unique(raw: Seq<u8>, k: int)
    requires
        is_first_colon(raw, k),
    ensures
        has_colon(raw),
        first_colon(raw) == k,
{
    let k2 = choose|k2: int| is_first_colon(raw, k2);
    if k2 < k {
        assert(raw[k2] != 58u8);
    } else if k < k2 {
        assert(raw[k] != 58u8);
    }
}

impl Identifier {
    /// An identifier in the default namespace.
    pub fn minecraft(value: &str) -> (r: Self)
        ensures
            r.namespace@ == "minecraft"@,
            r.value@ == value@,
    {
        Identifier { namespace: "minecraft".to_owned(), value: value.to_owned() }
    }
}

/// Finds the first colon byte of the slice, if any.
fn find_colon(raw: &[u8]) -> (r: Option<usize>)
    ensures
        r is Some <==> has_colon(raw@),
        r matches Some(k) ==> is_first_colon(raw@, k as int) && first_colon(raw@) == k as int,
{
    let mut i: usize = 0;
    while i < raw.len()
        invariant
            0 <= i <= raw@.len(),
            forall|j: int| 0 <= j < i ==> raw@[j] != 58u8,
        decreases raw@.len() - i,
    {
        if raw[i] == 58 {
            proof {
                lemma_first_colon_unique(raw@, i as int);
            }
            return Some(i);
        }
        i = i + 1;
    }
    proof {
        assert forall|k: int| !is_first_colon(raw@, k) by {
            if 0 <= k < raw@.len() {
                assert(raw@[k] != 58u8);
            }
        }
    }
    None
}

impl Readable for Identifier {
    open spec fn decodable(buf: Seq<u8>) -> bool {
        &&& string_decodable(buf)
        &&& ({
            let raw = string_payload(buf);
            if has_colon(raw) {
                valid_utf8(raw.take(first_colon(raw))) && valid_utf8(
                    raw.skip(first_colon(raw) + 1),
                )
            } else {
                true
            }
        })
    }

    open spec fn decoded_len(buf: Seq<u8>) -> int {
        string_decoded_len(buf)
    }

    open spec fn decodes_to(buf: Seq<u8>, v: &Self) -> bool {
        &&& Self::decodable(buf)
        &&& ({
            let raw = string_payload(buf);
            if has_colon(raw) {
                v.namespace@ == decode_utf8(raw.take(first_colon(raw))) && v.value@ == decode_utf8(
                    raw.skip(first_colon(raw) + 1),
                )
            } else {
                v.namespace@ == "minecraft"@ && v.value@ == decode_utf8(raw)
            }
        })
    }

    open spec fn decode_incomplete(buf: Seq<u8>) -> bool {
        crate::protocol::string_decode_incomplete(buf)
    }

    fn read(buffer: &[u8]) -> (r: Result<(Self, usize), ReadError>) {
        let (length, read_len) = match crate::varint::read_varint(buffer) {
            Ok(p) => p,
            Err(e) => {
                return Err(ReadError::VarIntError(e));
            },
        };
        if length < 0 {
            return Err(ReadError::MalformedBuffer);
        }
        if length > 32767 {
            return Err(ReadError::TooManyBytes);
        }
        let length = length as usize;
        if buffer.len() - read_len < length {
            return Err(ReadError::Incomplete);
        }
        let raw = slice_subrange(buffer, read_len, read_len + length);
        proof {
            assert(raw@ == string_payload(buffer@));
        }
        if bytes_to_string(raw).is_none() {
            return Err(ReadError::InvalidString);
        }
        match find_colon(raw) {
            Some(k) => {
                let namespace_bytes = slice_subrange(raw, 0, k);
                let value_bytes = slice_subrange(raw, k + 1, raw.len());
                proof {
                    assert(namespace_bytes@ =~= raw@.take(first_colon(raw@)));
                    assert(value_bytes@ =~= raw@.skip(first_colon(raw@) + 1));
                }
                let namespace = match bytes_to_string(namespace_bytes) {
                    Some(s) => s,
                    None => {
                        return Err(ReadError::InvalidString);
                    },
                };
                let value = match bytes_to_string(value_bytes) {
                    Some(s) => s,
                    None => {
                        return Err(ReadError::InvalidString);
                    },
                };
                Ok((Identifier { namespace, value }, read_len + length))
            },
            None => {
                let value = match bytes_to_string(raw) {
                    Some(s) => s,
                    None => {
                        return Err(ReadError::InvalidString);
                    },
                };
                Ok((Identifier { namespace: "minecraft".to_owned(), value }, read_len + length))
            },
        }
    }
}

impl Writeable for Identifier {
    /// On the wire: one string spelling `namespace:value`.
    open spec fn encoding(&self) -> Seq<u8> {
        let raw = vstd::utf8::encode_utf8(self.namespace@) + seq![58u8] + vstd::utf8::encode_utf8(
            self.value@,
        );
        varint_encoding(raw.len() as u32) + raw
    }

    open spec fn encodable(&self) -> bool {
        vstd::utf8::encode_utf8(self.namespace@).len() + 1 + vstd::utf8::encode_utf8(
            self.value@,
        ).len() <= 32767
    }

    fn write(&self) -> (r: Result<Vec<u8>, WriteError>) {
        let namespace_bytes = self.namespace.as_str().as_bytes();
        let value_bytes = self.value.as_str().as_bytes();
        if namespace_bytes.len() > 32767 || value_bytes.len() > 32767 {
            return Err(WriteError::TooLong);
        }
        let total = namespace_bytes.len() + 1 + value_bytes.len();
        if total > 32767 {
            return Err(WriteError::TooLong);
        }
        let (head, head_len) = write_varint(total as i32).unwrap();
        let mut out: Vec<u8> = Vec::new();
        out.extend_from_slice(slice_subrange(head.as_slice(), 0, head_len));
        out.extend_from_slice(namespace_bytes);
        out.push(58);
        out.extend_from_slice(value_bytes);
        proof {
            assert((total as i32) as u32 == total as u32);
            assert(out@ =~= self.encoding());
        }
        Ok(out)
    }
}

} // verus!
