//! The literal byte strings of the wire protocol, each as a spec-level
//! sequence and an executable builder proved to produce exactly it.
use vstd::prelude::*;

verus! {

/// `"HTTP/1.1 200 OK\r\n\r\n"`: the full response for a bare 200.
pub open spec fn ok_response_bytes() -> Seq<u8> {
    seq![72u8, 84u8, 84u8, 80u8, 47u8, 49u8, 46u8, 49u8, 32u8, 50u8, 48u8, 48u8, 32u8, 79u8, 75u8, 13u8, 10u8, 13u8, 10u8]
}

/// Builds `"HTTP/1.1 200 OK\r\n\r\n"`.
pub fn ok_response() -> (r: Vec<u8>)
    ensures
        r@ == ok_response_bytes(),
{
    let r: Vec<u8> = vec![72u8, 84u8, 84u8, 80u8, 47u8, 49u8, 46u8, 49u8, 32u8, 50u8, 48u8, 48u8, 32u8, 79u8, 75u8, 13u8, 10u8, 13u8, 10u8];
    proof {
        assert(r@ =~= ok_response_bytes());
    }
    r
}

/// `"HTTP/1.1 404 Not Found\r\n\r\n"`: the full 404 response.
pub open spec fn not_found_response_bytes() -> Seq<u8> {
    seq![72u8, 84u8, 84u8, 80u8, 47u8, 49u8, 46u8, 49u8, 32u8, 52u8, 48u8, 52u8, 32u8, 78u8, 111u8, 116u8, 32u8, 70u8, 111u8, 117u8, 110u8, 100u8, 13u8, 10u8, 13u8, 10u8]
}

/// Builds `"HTTP/1.1 404 Not Found\r\n\r\n"`.
pub fn not_found_response() -> (r: Vec<u8>)
    ensures
        r@ == not_found_response_bytes(),
{
    let r: Vec<u8> = vec![72u8, 84u8, 84u8, 80u8, 47u8, 49u8, 46u8, 49u8, 32u8, 52u8, 48u8, 52u8, 32u8, 78u8, 111u8, 116u8, 32u8, 70u8, 111u8, 117u8, 110u8, 100u8, 13u8, 10u8, 13u8, 10u8];
    proof {
        assert(r@ =~= not_found_response_bytes());
    }
    r
}

/// `"HTTP/1.1 201 Created\r\n\r\n"`: the full 201 response.
pub open spec fn created_response_bytes() -> Seq<u8> {
    seq![72u8, 84u8, 84u8, 80u8, 47u8, 49u8, 46u8, 49u8, 32u8, 50u8, 48u8, 49u8, 32u8, 67u8, 114u8, 101u8, 97u8, 116u8, 101u8, 100u8, 13u8, 10u8, 13u8, 10u8]
}

/// Builds `"HTTP/1.1 201 Created\r\n\r\n"`.
pub fn created_response() -> (r: Vec<u8>)
    ensures
        r@ == created_response_bytes(),
{
    let r: Vec<u8> = vec![72u8, 84u8, 84u8, 80u8, 47u8, 49u8, 46u8, 49u8, 32u8, 50u8, 48u8, 49u8, 32u8, 67u8, 114u8, 101u8, 97u8, 116u8, 101u8, 100u8, 13u8, 10u8, 13u8, 10u8];
    proof {
        assert(r@ =~= created_response_bytes());
    }
    r
}

/// `"HTTP/1.1 200 OK"`: the 200 status line, without its line break.
pub open spec fn status_ok_bytes() -> Seq<u8> {
    seq![72u8, 84u8, 84u8, 80u8, 47u8, 49u8, 46u8, 49u8, 32u8, 50u8, 48u8, 48u8, 32u8, 79u8, 75u8]
}

/// Builds `"HTTP/1.1 200 OK"`.
pub fn status_ok() -> (r: Vec<u8>)
    ensures
        r@ == status_ok_bytes(),
{
    let r: Vec<u8> = vec![72u8, 84u8, 84u8, 80u8, 47u8, 49u8, 46u8, 49u8, 32u8, 50u8, 48u8, 48u8, 32u8, 79u8, 75u8];
    proof {
        assert(r@ =~= status_ok_bytes());
    }
    r
}

/// `"\r\n"`: the line terminator.
pub open spec fn crlf_bytes() -> Seq<u8> {
    seq![13u8, 10u8]
}

/// Builds `"\r\n"`.
pub fn crlf() -> (r: Vec<u8>)
    ensures
        r@ == crlf_bytes(),
{
    let r: Vec<u8> = vec![13u8, 10u8];
    proof {
        assert(r@ =~= crlf_bytes());
    }
    r
}

/// `"\r\n\r\n"`: the blank line separating headers from body.
pub open spec fn crlf_crlf_bytes() -> Seq<u8> {
    seq![13u8, 10u8, 13u8, 10u8]
}

/// Builds `"\r\n\r\n"`.
pub fn crlf_crlf() -> (r: Vec<u8>)
    ensures
        r@ == crlf_crlf_bytes(),
{
    let r: Vec<u8> = vec![13u8, 10u8, 13u8, 10u8];
    proof {
        assert(r@ =~= crlf_crlf_bytes());
    }
    r
}

/// `"Content-Type: "`: prefix of the content-type header line.
pub open spec fn content_type_prefix_bytes() -> Seq<u8> {
    seq![67u8, 111u8, 110u8, 116u8, 101u8, 110u8, 116u8, 45u8, 84u8, 121u8, 112u8, 101u8, 58u8, 32u8]
}

/// Builds `"Content-Type: "`.
pub fn content_type_prefix() -> (r: Vec<u8>)
    ensures
        r@ == content_type_prefix_bytes(),
{
    let r: Vec<u8> = vec![67u8, 111u8, 110u8, 116u8, 101u8, 110u8, 116u8, 45u8, 84u8, 121u8, 112u8, 101u8, 58u8, 32u8];
    proof {
        assert(r@ =~= content_type_prefix_bytes());
    }
    r
}

/// `"Content-Encoding: gzip"`: the header announcing a gzip body.
pub open spec fn content_encoding_gzip_bytes() -> Seq<u8> {
    seq![67u8, 111u8, 110u8, 116u8, 101u8, 110u8, 116u8, 45u8, 69u8, 110u8, 99u8, 111u8, 100u8, 105u8, 110u8, 103u8, 58u8, 32u8, 103u8, 122u8, 105u8, 112u8]
}

/// Builds `"Content-Encoding: gzip"`.
pub fn content_encoding_gzip() -> (r: Vec<u8>)
    ensures
        r@ == content_encoding_gzip_bytes(),
{
    let r: Vec<u8> = vec![67u8, 111u8, 110u8, 116u8, 101u8, 110u8, 116u8, 45u8, 69u8, 110u8, 99u8, 111u8, 100u8, 105u8, 110u8, 103u8, 58u8, 32u8, 103u8, 122u8, 105u8, 112u8];
    proof {
        assert(r@ =~= content_encoding_gzip_bytes());
    }
    r
}

/// `"Content-Length: "`: prefix of the content-length header line.
pub open spec fn content_length_prefix_bytes() -> Seq<u8> {
    seq![67u8, 111u8, 110u8, 116u8, 101u8, 110u8, 116u8, 45u8, 76u8, 101u8, 110u8, 103u8, 116u8, 104u8, 58u8, 32u8]
}

/// Builds `"Content-Length: "`.
pub fn content_length_prefix() -> (r: Vec<u8>)
    ensures
        r@ == content_length_prefix_bytes(),
{
    let r: Vec<u8> = vec![67u8, 111u8, 110u8, 116u8, 101u8, 110u8, 116u8, 45u8, 76u8, 101u8, 110u8, 103u8, 116u8, 104u8, 58u8, 32u8];
    proof {
        assert(r@ =~= content_length_prefix_bytes());
    }
    r
}

/// `"/echo/"`: path prefix of the echo endpoint.
pub open spec fn echo_prefix_bytes() -> Seq<u8> {
    seq![47u8, 101u8, 99u8, 104u8, 111u8, 47u8]
}

/// Builds `"/echo/"`.
pub fn echo_prefix() -> (r: Vec<u8>)
    ensures
        r@ == echo_prefix_bytes(),
{
    let r: Vec<u8> = vec![47u8, 101u8, 99u8, 104u8, 111u8, 47u8];
    proof {
        assert(r@ =~= echo_prefix_bytes());
    }
    r
}

/// `"/files/"`: path prefix of the file endpoints.
pub open spec fn files_prefix_bytes() -> Seq<u8> {
    seq![47u8, 102u8, 105u8, 108u8, 101u8, 115u8, 47u8]
}

/// Builds `"/files/"`.
pub fn files_prefix() -> (r: Vec<u8>)
    ensures
        r@ == files_prefix_bytes(),
{
    let r: Vec<u8> = vec![47u8, 102u8, 105u8, 108u8, 101u8, 115u8, 47u8];
    proof {
        assert(r@ =~= files_prefix_bytes());
    }
    r
}

/// `"/user-agent"`: path of the user-agent endpoint.
pub open spec fn user_agent_path_bytes() -> Seq<u8> {
    seq![47u8, 117u8, 115u8, 101u8, 114u8, 45u8, 97u8, 103u8, 101u8, 110u8, 116u8]
}

/// Builds `"/user-agent"`.
pub fn user_agent_path() -> (r: Vec<u8>)
    ensures
        r@ == user_agent_path_bytes(),
{
    let r: Vec<u8> = vec![47u8, 117u8, 115u8, 101u8, 114u8, 45u8, 97u8, 103u8, 101u8, 110u8, 116u8];
    proof {
        assert(r@ =~= user_agent_path_bytes());
    }
    r
}

/// `"/"`: path of the root endpoint.
pub open spec fn root_path_bytes() -> Seq<u8> {
    seq![47u8]
}

/// Builds `"/"`.
pub fn root_path() -> (r: Vec<u8>)
    ensures
        r@ == root_path_bytes(),
{
    let r: Vec<u8> = vec![47u8];
    proof {
        assert(r@ =~= root_path_bytes());
    }
    r
}

/// `"GET"`: the GET method token.
pub open spec fn method_get_bytes() -> Seq<u8> {
    seq![71u8, 69u8, 84u8]
}

/// Builds `"GET"`.
pub fn method_get() -> (r: Vec<u8>)
    ensures
        r@ == method_get_bytes(),
{
    let r: Vec<u8> = vec![71u8, 69u8, 84u8];
    proof {
        assert(r@ =~= method_get_bytes());
    }
    r
}

/// `"POST"`: the POST method token.
pub open spec fn method_post_bytes() -> Seq<u8> {
    seq![80u8, 79u8, 83u8, 84u8]
}

/// Builds `"POST"`.
pub fn method_post() -> (r: Vec<u8>)
    ensures
        r@ == method_post_bytes(),
{
    let r: Vec<u8> = vec![80u8, 79u8, 83u8, 84u8];
    proof {
        assert(r@ =~= method_post_bytes());
    }
    r
}

/// `"Accept-Encoding:"`: name of the accept-encoding header, colon included.
pub open spec fn accept_encoding_name_bytes() -> Seq<u8> {
    seq![65u8, 99u8, 99u8, 101u8, 112u8, 116u8, 45u8, 69u8, 110u8, 99u8, 111u8, 100u8, 105u8, 110u8, 103u8, 58u8]
}

/// Builds `"Accept-Encoding:"`.
pub fn accept_encoding_name() -> (r: Vec<u8>)
    ensures
        r@ == accept_encoding_name_bytes(),
{
    let r: Vec<u8> = vec![65u8, 99u8, 99u8, 101u8, 112u8, 116u8, 45u8, 69u8, 110u8, 99u8, 111u8, 100u8, 105u8, 110u8, 103u8, 58u8];
    proof {
        assert(r@ =~= accept_encoding_name_bytes());
    }
    r
}

/// `"User-Agent:"`: name of the user-agent header, colon included.
pub open spec fn user_agent_name_bytes() -> Seq<u8> {
    seq![85u8, 115u8, 101u8, 114u8, 45u8, 65u8, 103u8, 101u8, 110u8, 116u8, 58u8]
}

/// Builds `"User-Agent:"`.
pub fn user_agent_name() -> (r: Vec<u8>)
    ensures
        r@ == user_agent_name_bytes(),
{
    let r: Vec<u8> = vec![85u8, 115u8, 101u8, 114u8, 45u8, 65u8, 103u8, 101u8, 110u8, 116u8, 58u8];
    proof {
        assert(r@ =~= user_agent_name_bytes());
    }
    r
}

/// `"gzip"`: the encoding token that turns compression on.
pub open spec fn gzip_token_bytes() -> Seq<u8> {
    seq![103u8, 122u8, 105u8, 112u8]
}

/// Builds `"gzip"`.
pub fn gzip_token() -> (r: Vec<u8>)
    ensures
        r@ == gzip_token_bytes(),
{
    let r: Vec<u8> = vec![103u8, 122u8, 105u8, 112u8];
    proof {
        assert(r@ =~= gzip_token_bytes());
    }
    r
}

/// `", "`: the separator between encoding tokens.
pub open spec fn comma_space_bytes() -> Seq<u8> {
    seq![44u8, 32u8]
}

/// Builds `", "`.
pub fn comma_space() -> (r: Vec<u8>)
    ensures
        r@ == comma_space_bytes(),
{
    let r: Vec<u8> = vec![44u8, 32u8];
    proof {
        assert(r@ =~= comma_space_bytes());
    }
    r
}

/// `"text/plain"`: content type of text responses.
pub open spec fn text_plain_bytes() -> Seq<u8> {
    seq![116u8, 101u8, 120u8, 116u8, 47u8, 112u8, 108u8, 97u8, 105u8, 110u8]
}

/// Builds `"text/plain"`.
pub fn text_plain() -> (r: Vec<u8>)
    ensures
        r@ == text_plain_bytes(),
{
    let r: Vec<u8> = vec![116u8, 101u8, 120u8, 116u8, 47u8, 112u8, 108u8, 97u8, 105u8, 110u8];
    proof {
        assert(r@ =~= text_plain_bytes());
    }
    r
}

/// `"application/octet-stream"`: content type of file responses.
pub open spec fn octet_stream_bytes() -> Seq<u8> {
    seq![97u8, 112u8, 112u8, 108u8, 105u8, 99u8, 97u8, 116u8, 105u8, 111u8, 110u8, 47u8, 111u8, 99u8, 116u8, 101u8, 116u8, 45u8, 115u8, 116u8, 114u8, 101u8, 97u8, 109u8]
}

/// Builds `"application/octet-stream"`.
pub fn octet_stream() -> (r: Vec<u8>)
    ensures
        r@ == octet_stream_bytes(),
{
    let r: Vec<u8> = vec![97u8, 112u8, 112u8, 108u8, 105u8, 99u8, 97u8, 116u8, 105u8, 111u8, 110u8, 47u8, 111u8, 99u8, 116u8, 101u8, 116u8, 45u8, 115u8, 116u8, 114u8, 101u8, 97u8, 109u8];
    proof {
        assert(r@ =~= octet_stream_bytes());
    }
    r
}

} // verus!
