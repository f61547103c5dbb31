//! The fixed byte strings of the pipeline: header names, coding names and
//! default values, each as a model and as a function that builds it.

use vstd::prelude::*;

verus! {

/// The header that says what kind of body a message carries. The bytes of `content-type`.
pub open spec fn content_type() -> Seq<u8> {
    seq![99u8, 111u8, 110u8, 116u8, 101u8, 110u8, 116u8, 45u8, 116u8, 121u8, 112u8, 101u8]
}

/// The bytes of `content-type`.
pub fn content_type_bytes() -> (r: Vec<u8>)
    ensures
        r@ == content_type(),
{
    vec![99u8, 111u8, 110u8, 116u8, 101u8, 110u8, 116u8, 45u8, 116u8, 121u8, 112u8, 101u8]
}

/// The header that gives the number of body bytes. The bytes of `content-length`.
pub open spec fn content_length() -> Seq<u8> {
    seq![99u8, 111u8, 110u8, 116u8, 101u8, 110u8, 116u8, 45u8, 108u8, 101u8, 110u8, 103u8, 116u8, 104u8]
}

/// The bytes of `content-length`.
pub fn content_length_bytes() -> (r: Vec<u8>)
    ensures
        r@ == content_length(),
{
    vec![99u8, 111u8, 110u8, 116u8, 101u8, 110u8, 116u8, 45u8, 108u8, 101u8, 110u8, 103u8, 116u8, 104u8]
}

/// The header that names the coding applied to the body. The bytes of `content-encoding`.
pub open spec fn content_encoding() -> Seq<u8> {
    seq![99u8, 111u8, 110u8, 116u8, 101u8, 110u8, 116u8, 45u8, 101u8, 110u8, 99u8, 111u8, 100u8, 105u8, 110u8, 103u8]
}

/// The bytes of `content-encoding`.
pub fn content_encoding_bytes() -> (r: Vec<u8>)
    ensures
        r@ == content_encoding(),
{
    vec![99u8, 111u8, 110u8, 116u8, 101u8, 110u8, 116u8, 45u8, 101u8, 110u8, 99u8, 111u8, 100u8, 105u8, 110u8, 103u8]
}

/// The request header that lists the codings a client takes. The bytes of `accept-encoding`.
pub open spec fn accept_encoding() -> Seq<u8> {
    seq![97u8, 99u8, 99u8, 101u8, 112u8, 116u8, 45u8, 101u8, 110u8, 99u8, 111u8, 100u8, 105u8, 110u8, 103u8]
}

/// The bytes of `accept-encoding`.
pub fn accept_encoding_bytes() -> (r: Vec<u8>)
    ensures
        r@ == accept_encoding(),
{
    vec![97u8, 99u8, 99u8, 101u8, 112u8, 116u8, 45u8, 101u8, 110u8, 99u8, 111u8, 100u8, 105u8, 110u8, 103u8]
}

/// The request header that carries credentials. The bytes of `authorization`.
pub open spec fn authorization() -> Seq<u8> {
    seq![97u8, 117u8, 116u8, 104u8, 111u8, 114u8, 105u8, 122u8, 97u8, 116u8, 105u8, 111u8, 110u8]
}

/// The bytes of `authorization`.
pub fn authorization_bytes() -> (r: Vec<u8>)
    ensures
        r@ == authorization(),
{
    vec![97u8, 117u8, 116u8, 104u8, 111u8, 114u8, 105u8, 122u8, 97u8, 116u8, 105u8, 111u8, 110u8]
}

/// The request header that carries session cookies. The bytes of `cookie`.
pub open spec fn cookie() -> Seq<u8> {
    seq![99u8, 111u8, 111u8, 107u8, 105u8, 101u8]
}

/// The bytes of `cookie`.
pub fn cookie_bytes() -> (r: Vec<u8>)
    ensures
        r@ == cookie(),
{
    vec![99u8, 111u8, 111u8, 107u8, 105u8, 101u8]
}

/// The content type given to a response that names none. The bytes of `text/plain`.
pub open spec fn text_plain() -> Seq<u8> {
    seq![116u8, 101u8, 120u8, 116u8, 47u8, 112u8, 108u8, 97u8, 105u8, 110u8]
}

/// The bytes of `text/plain`.
pub fn text_plain_bytes() -> (r: Vec<u8>)
    ensures
        r@ == text_plain(),
{
    vec![116u8, 101u8, 120u8, 116u8, 47u8, 112u8, 108u8, 97u8, 105u8, 110u8]
}

/// What a log shows in place of a sensitive value. The bytes of `Sensitive`.
pub open spec fn marker() -> Seq<u8> {
    seq![83u8, 101u8, 110u8, 115u8, 105u8, 116u8, 105u8, 118u8, 101u8]
}

/// The bytes of `Sensitive`.
pub fn marker_bytes() -> (r: Vec<u8>)
    ensures
        r@ == marker(),
{
    vec![83u8, 101u8, 110u8, 115u8, 105u8, 116u8, 105u8, 118u8, 101u8]
}

/// The coding name of gzip. The bytes of `gzip`.
pub open spec fn gzip() -> Seq<u8> {
    seq![103u8, 122u8, 105u8, 112u8]
}

/// The bytes of `gzip`.
pub fn gzip_bytes() -> (r: Vec<u8>)
    ensures
        r@ == gzip(),
{
    vec![103u8, 122u8, 105u8, 112u8]
}

/// The coding name of deflate. The bytes of `deflate`.
pub open spec fn deflate() -> Seq<u8> {
    seq![100u8, 101u8, 102u8, 108u8, 97u8, 116u8, 101u8]
}

/// The bytes of `deflate`.
pub fn deflate_bytes() -> (r: Vec<u8>)
    ensures
        r@ == deflate(),
{
    vec![100u8, 101u8, 102u8, 108u8, 97u8, 116u8, 101u8]
}

/// The coding name of Brotli. The bytes of `br`.
pub open spec fn brotli() -> Seq<u8> {
    seq![98u8, 114u8]
}

/// The bytes of `br`.
pub fn brotli_bytes() -> (r: Vec<u8>)
    ensures
        r@ == brotli(),
{
    vec![98u8, 114u8]
}

} // verus!
