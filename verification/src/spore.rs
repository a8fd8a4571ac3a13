use crate::error::SilentBerryError;
use crate::level::{spec_level_value, Level};
use vstd::bytes::{spec_u32_to_le_bytes, u32_from_le_bytes, u32_to_le_bytes};
use vstd::prelude::*;
use vstd::slice::slice_subrange;

verus! {

/// The descriptor of a collectible as the core reads it: a content type, a
/// free-text content whose trailing hex digit encodes the payout tier, and
/// an optional cluster identifier.
#[derive(Clone)]
pub struct SporeData {
    pub content_type: Vec<u8>,
    pub content: Vec<u8>,
    pub cluster_id: Option<Vec<u8>>,
}

/// The canonical byte layout of a collectible descriptor: each byte string
/// preceded by its little-endian 32-bit length, the cluster identifier
/// preceded by a presence flag.
pub open spec fn spec_serialize_spore_data(d: SporeData) -> Seq<u8> {
    spec_u32_to_le_bytes(d.content_type@.len() as u32) + d.content_type@ + spec_u32_to_le_bytes(
        d.content@.len() as u32,
    ) + d.content@ + match d.cluster_id {
        Some(c) => seq![1u8] + spec_u32_to_le_bytes(c@.len() as u32) + c@,
        None => seq![0u8],
    }
}

/// The fields encoded by a byte string in the canonical descriptor layout,
/// if it is exactly one descriptor.
pub open spec fn spec_parse_spore_data(b: Seq<u8>) -> Option<(Seq<u8>, Seq<u8>, Option<Seq<u8>>)> {
    if b.len() < 4 {
        None
    } else {
        let n1 = vstd::bytes::spec_u32_from_le_bytes(b.subrange(0, 4)) as int;
        if b.len() < 8 + n1 {
            None
        } else {
            let ct = b.subrange(4, 4 + n1);
            let n2 = vstd::bytes::spec_u32_from_le_bytes(b.subrange(4 + n1, 8 + n1)) as int;
            if b.len() < 9 + n1 + n2 {
                None
            } else {
                let c = b.subrange(8 + n1, 8 + n1 + n2);
                let flag = b[8 + n1 + n2];
                if flag == 0 {
                    if b.len() == 9 + n1 + n2 {
                        Some((ct, c, None))
                    } else {
                        None
                    }
                } else if flag == 1 {
                    if b.len() < 13 + n1 + n2 {
                        None
                    } else {
                        let n3 = vstd::bytes::spec_u32_from_le_bytes(
                            b.subrange(9 + n1 + n2, 13 + n1 + n2),
                        ) as int;
                        if b.len() == 13 + n1 + n2 + n3 {
                            Some((ct, c, Some(b.subrange(13 + n1 + n2, 13 + n1 + n2 + n3))))
                        } else {
                            None
                        }
                    }
                } else {
                    None
                }
            }
        }
    }
}

impl SporeData {
    /// Serializes the descriptor in its canonical byte layout.
    pub fn serialize(&self) -> (r: Vec<u8>)
        requires
            self.content_type@.len() <= u32::MAX,
            self.content@.len() <= u32::MAX,
            match self.cluster_id {
                Some(c) => c@.len() <= u32::MAX,
                None => true,
            },
        ensures
            r@ == spec_serialize_spore_data(*self),
    {
        let mut v: Vec<u8> = Vec::new();
        v.extend_from_slice(u32_to_le_bytes(self.content_type.len() as u32).as_slice());
        v.extend_from_slice(self.content_type.as_slice());
        v.extend_from_slice(u32_to_le_bytes(self.content.len() as u32).as_slice());
        v.extend_from_slice(self.content.as_slice());
        match &self.cluster_id {
            Some(c) => {
                v.push(1u8);
                v.extend_from_slice(u32_to_le_bytes(c.len() as u32).as_slice());
                v.extend_from_slice(c.as_slice());
            },
            None => {
                v.push(0u8);
            },
        }
        proof {
            assert(v@ =~= spec_serialize_spore_data(*self));
        }
        v
    }

    /// Parses a byte string that holds exactly one descriptor in the
    /// canonical layout; any other byte string is refused with the
    /// collectible-domain error.
    pub fn parse(bytes: &Vec<u8>) -> (r: Result<SporeData, SilentBerryError>)
        ensures
            match r {
                Ok(d) => {
                    &&& spec_parse_spore_data(bytes@) matches Some(f)
                    &&& f.0 == d.content_type@
                    &&& f.1 == d.content@
                    &&& match (f.2, d.cluster_id) {
                        (Some(c), Some(dc)) => c == dc@,
                        (None, None) => true,
                        _ => false,
                    }
                },
                Err(e) => {
                    &&& spec_parse_spore_data(bytes@) is None
                    &&& e == SilentBerryError::Spore
                },
            },
    {
        let len = bytes.len();
        let s = bytes.as_slice();
        if len < 4 {
            return Err(SilentBerryError::Spore);
        }
        let n1u = u32_from_le_bytes(slice_subrange(s, 0, 4));
        if len < 8 || (n1u as u64) > (len as u64) - 8 {
            return Err(SilentBerryError::Spore);
        }
        let n1 = n1u as usize;
        let content_type = vstd::slice::slice_to_vec(slice_subrange(s, 4, 4 + n1));
        let n2u = u32_from_le_bytes(slice_subrange(s, 4 + n1, 8 + n1));
        if (len as u64) < 9 + (n1u as u64) || (n2u as u64) > (len as u64) - 9 - (n1u as u64) {
            return Err(SilentBerryError::Spore);
        }
        let n2 = n2u as usize;
        let content = vstd::slice::slice_to_vec(slice_subrange(s, 8 + n1, 8 + n1 + n2));
        let flag = *vstd::slice::slice_index_get(s, 8 + n1 + n2);
        if flag == 0 {
            if len == 9 + n1 + n2 {
                Ok(SporeData { content_type, content, cluster_id: None })
            } else {
                Err(SilentBerryError::Spore)
            }
        } else if flag == 1 {
            if (len as u64) < 13 + (n1 as u64) + (n2 as u64) {
                return Err(SilentBerryError::Spore);
            }
            let n3u = u32_from_le_bytes(slice_subrange(s, 9 + n1 + n2, 13 + n1 + n2));
            if (n3u as u64) != (len as u64) - 13 - (n1 as u64) - (n2 as u64) {
                return Err(SilentBerryError::Spore);
            }
            let n3 = n3u as usize;
            let cluster = vstd::slice::slice_to_vec(
                slice_subrange(s, 13 + n1 + n2, 13 + n1 + n2 + n3),
            );
            Ok(SporeData { content_type, content, cluster_id: Some(cluster) })
        } else {
            Err(SilentBerryError::Spore)
        }
    }
}

/// The byte is the ASCII code of a hexadecimal digit.
pub open spec fn is_hex_digit_byte(b: u8) -> bool {
    (48 <= b <= 57) || (65 <= b <= 70) || (97 <= b <= 102)
}

/// The numeric value of an ASCII hexadecimal digit.
pub open spec fn spec_hex_value(b: u8) -> u8 {
    if 48 <= b <= 57 {
        (b - 48) as u8
    } else if 65 <= b <= 70 {
        (b - 55) as u8
    } else {
        (b - 87) as u8
    }
}

/// The index of the last ASCII hexadecimal digit of a byte string, if any.
pub open spec fn spec_last_hex_index(s: Seq<u8>) -> Option<int>
    decreases s.len(),
{
    if s.len() == 0 {
        None
    } else if is_hex_digit_byte(s.last()) {
        Some(s.len() - 1)
    } else {
        spec_last_hex_index(s.drop_last())
    }
}

/// The last-hex-digit index is the largest index holding a hex digit, and it
/// is absent exactly when no byte is a hex digit.
pub proof fn lemma_last_hex_index(s: Seq<u8>)
    ensures
        match spec_last_hex_index(s) {
            Some(i) => {
                &&& 0 <= i < s.len()
                &&& is_hex_digit_byte(s[i])
                &&& forall|j: int| i < j < s.len() ==> !is_hex_digit_byte(s[j])
            },
            None => forall|j: int| 0 <= j < s.len() ==> !is_hex_digit_byte(s[j]),
        },
    decreases s.len(),
{
    if s.len() > 0 && !is_hex_digit_byte(s.last()) {
        lemma_last_hex_index(s.drop_last());
        assert(forall|j: int| 0 <= j < s.len() - 1 ==> s.drop_last()[j] == s[j]);
    }
}

/// Relies on core::str::from_utf8: it accepts exactly the byte strings that
/// are valid UTF-8, as vstd's UTF-8 model states it.
#[verifier::external_body]
fn check_utf8(bytes: &[u8]) -> (r: bool)
    ensures
        r == vstd::utf8::valid_utf8(bytes@),
{
    core::str::from_utf8(bytes).is_ok()
}

/// Decodes the payout level of a collectible from its content: the content
/// must be valid UTF-8 and its last ASCII hexadecimal digit, scanned from
/// the end, names the level.  A content that is not UTF-8 or holds no hex
/// digit is refused with the collectible-domain error.
pub fn get_spore_level(data: &SporeData) -> (r: Result<u8, SilentBerryError>)
    ensures
        match r {
            Ok(v) => {
                &&& vstd::utf8::valid_utf8(data.content@)
                &&& spec_last_hex_index(data.content@) matches Some(i) && v == spec_hex_value(
                    data.content@[i],
                )
            },
            Err(e) => {
                &&& e == SilentBerryError::Spore
                &&& (!vstd::utf8::valid_utf8(data.content@) || spec_last_hex_index(data.content@)
                    is None)
            },
        },
{
    if !check_utf8(data.content.as_slice()) {
        return Err(SilentBerryError::Spore);
    }
    let mut i: usize = data.content.len();
    while i > 0
        invariant
            i <= data.content@.len(),
            vstd::utf8::valid_utf8(data.content@),
            forall|j: int| i <= j < data.content@.len() ==> !is_hex_digit_byte(data.content@[j]),
        decreases i,
    {
        i = i - 1;
        let b = data.content[i];
        if (48 <= b && b <= 57) || (65 <= b && b <= 70) || (97 <= b && b <= 102) {
            proof {
                lemma_last_hex_index(data.content@);
                let li = spec_last_hex_index(data.content@);
                assert(li matches Some(k) && k == i as int);
            }
            let v: u8 = if b <= 57 {
                b - 48
            } else if b <= 70 {
                b - 55
            } else {
                b - 87
            };
            return Ok(v);
        }
    }
    proof {
        lemma_last_hex_index(data.content@);
    }
    Err(SilentBerryError::Spore)
}

/// Decodes the payout tier of a collectible: its content-level digit must
/// name one of the four tiers.
pub fn spore_level(data: &SporeData) -> (r: Result<Level, SilentBerryError>)
    ensures
        match r {
            Ok(l) => {
                &&& vstd::utf8::valid_utf8(data.content@)
                &&& spec_last_hex_index(data.content@) matches Some(i) && spec_level_value(l)
                    == spec_hex_value(data.content@[i]) && 1 <= spec_hex_value(data.content@[i])
                    <= 4
            },
            Err(e) => {
                &&& e == SilentBerryError::Spore
                &&& (!vstd::utf8::valid_utf8(data.content@) || spec_last_hex_index(data.content@)
                    is None || (spec_last_hex_index(data.content@) matches Some(i) && !(1
                    <= spec_hex_value(data.content@[i]) <= 4)))
            },
        },
{
    let v = get_spore_level(data)?;
    Level::try_from_u8(v)
}

} // verus!
