//! MessagePack arrays of strings, as the `rmp_serde` crate writes them and
//! reads them at a fixed length.
//!
//! Nothing here is proved: the contracts name what the crate returns.
use crate::text::texts;
use rmp_serde::decode::Error as UnpackError;
use rmp_serde::encode::Error as PackError;
use vstd::prelude::*;
use vstd::utf8::encode_utf8;

verus! {

/// `decode::Error` of the `rmp_serde` crate, carried as it comes.
#[verifier::external_type_specification]
#[verifier::external_body]
pub struct ExUnpackError(UnpackError);

/// `encode::Error` of the `rmp_serde` crate, carried as it comes.
#[verifier::external_type_specification]
#[verifier::external_body]
pub struct ExPackError(PackError);

/// The MessagePack array of the strings `fields`, if the writer returns one.
pub uninterp spec fn packed(fields: Seq<Seq<char>>) -> Option<Seq<u8>>;

/// The strings of the MessagePack array that `data` begins with, if it
/// begins with an array of exactly nine strings.
pub uninterp spec fn unpacked_nine(data: Seq<u8>) -> Option<Seq<Seq<char>>>;

/// The strings of the MessagePack array that `data` begins with, if it
/// begins with an array of exactly eleven strings.
pub uninterp spec fn unpacked_eleven(data: Seq<u8>) -> Option<Seq<Seq<char>>>;

/// The format counts the strings of an array, and the bytes of a string, in
/// 32 bits: `fields` can be written down where both counts fit.
pub open spec fn fits(fields: Seq<Seq<char>>) -> bool {
    &&& fields.len() <= u32::MAX
    &&& forall|i: int| 0 <= i < fields.len() ==> encode_utf8(#[trigger] fields[i]).len() <= u32::MAX
}

/// `rmp_serde::to_vec` on a vector of strings. The contract names the bytes
/// and claims one thing of them: where the counts fit, `rmp_serde::from_read`
/// reads the same strings from them, as an array of nine where there are
/// nine and as an array of eleven where there are eleven.
#[verifier::external_body]
pub(crate) fn pack(fields: &Vec<String>) -> (r: Result<Vec<u8>, PackError>)
    ensures
        match r {
            Ok(data) => {
                &&& packed(texts(fields@)) == Some(data@)
                &&& fits(texts(fields@)) && fields.len() == 9 ==> unpacked_nine(data@) == Some(
                    texts(fields@),
                )
                &&& fits(texts(fields@)) && fields.len() == 11 ==> unpacked_eleven(data@) == Some(
                    texts(fields@),
                )
            },
            Err(_) => packed(texts(fields@)) is None,
        },
{
    rmp_serde::to_vec(fields)
}

/// `rmp_serde::from_read` to an array of nine strings, copied into a
/// vector. The contract names the strings, says that there are nine, and
/// says nothing of the error.
#[verifier::external_body]
pub(crate) fn unpack_nine(data: &[u8]) -> (r: Result<Vec<String>, UnpackError>)
    ensures
        match r {
            Ok(fields) => unpacked_nine(data@) == Some(texts(fields@)) && fields.len() == 9,
            Err(_) => unpacked_nine(data@) is None,
        },
{
    rmp_serde::from_read::<_, [String; 9]>(data).map(Vec::from)
}

/// `rmp_serde::from_read` to an array of eleven strings, copied into a
/// vector. The contract names the strings, says that there are eleven, and
/// says nothing of the error.
#[verifier::external_body]
pub(crate) fn unpack_eleven(data: &[u8]) -> (r: Result<Vec<String>, UnpackError>)
    ensures
        match r {
            Ok(fields) => unpacked_eleven(data@) == Some(texts(fields@)) && fields.len() == 11,
            Err(_) => unpacked_eleven(data@) is None,
        },
{
    rmp_serde::from_read::<_, [String; 11]>(data).map(Vec::from)
}

} // verus!
