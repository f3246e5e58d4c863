//! The JSON-RPC request of the storage proof endpoint.

use vstd::prelude::*;

verus! {

/// Value of the `Content-Type` header that accompanies a request body.
pub const JSON_CONTENT_TYPE: &'static str = "application/json";

/// The JSON string literal that stands for `text`: the text between double
/// quotes, with the characters that JSON reserves escaped.
pub uninterp spec fn json_string_literal(text: Seq<char>) -> Seq<char>;

/// Encodes a text as a JSON string literal.
///
/// Calls `Display` of `serde_json::Value::String`, which prints the compact JSON
/// form of the string. The contract only gives that text its name: it depends on
/// nothing but the characters handed in.
#[verifier::external_body]
fn json_string(text: &str) -> (literal: String)
    ensures
        literal@ == json_string_literal(text@),
{
    serde_json::Value::String(text.to_owned()).to_string()
}

/// The literals of `items`, in order, with a comma between neighbours.
pub open spec fn comma_separated(items: Seq<Seq<char>>) -> Seq<char>
    decreases items.len(),
{
    if items.len() == 0 {
        Seq::empty()
    } else if items.len() == 1 {
        items[0]
    } else {
        comma_separated(items.drop_last()) + seq![','] + items.last()
    }
}

/// Text of an `eth_getProof` request whose three parameters are already JSON:
/// the address literal, the literals of the storage keys, the block hash literal.
pub open spec fn request_text(
    address: Seq<char>,
    storage_keys: Seq<Seq<char>>,
    block_hash: Seq<char>,
) -> Seq<char> {
    "{\"jsonrpc\":\"2.0\",\"method\":\"eth_getProof\",\"id\":1,\"params\":["@ + address + ",["@
        + comma_separated(storage_keys) + "],"@ + block_hash + "]}"@
}

/// The views of a sequence of strings.
pub open spec fn texts(items: Seq<String>) -> Seq<Seq<char>> {
    items.map_values(|item: String| item@)
}

/// The JSON string literals of a sequence of strings.
pub open spec fn literals(items: Seq<String>) -> Seq<Seq<char>> {
    items.map_values(|item: String| json_string_literal(item@))
}

/// Assembles the request body from parameters that are already JSON text.
pub fn assemble_request(
    address: &str,
    storage_keys: &[String],
    block_hash: &str,
) -> (body: String)
    ensures
        body@ == request_text(address@, texts(storage_keys@), block_hash@),
{
    let mut body = String::from_str(
        "{\"jsonrpc\":\"2.0\",\"method\":\"eth_getProof\",\"id\":1,\"params\":[",
    );
    body.append(address);
    body.append(",[");
    let ghost head = body@;
    let mut index: usize = 0;
    while index < storage_keys.len()
        invariant
            index <= storage_keys.len(),
            body@ == head + comma_separated(texts(storage_keys@).take(index as int)),
        decreases storage_keys.len() - index,
    {
        let ghost before = texts(storage_keys@).take(index as int);
        let ghost after = texts(storage_keys@).take(index + 1);
        proof {
            reveal_strlit(",");
            assert(after.drop_last() == before);
            assert(after.last() == storage_keys@[index as int]@);
            assert(",".view() == seq![',']);
        }
        if index > 0 {
            body.append(",");
        }
        body.append(storage_keys[index].as_str());
        index += 1;
    }
    assert(texts(storage_keys@).take(index as int) == texts(storage_keys@));
    body.append("],");
    body.append(block_hash);
    body.append("]}");
    body
}

/// Builds the body of the `eth_getProof` request for an address, its storage
/// keys and a block hash.
pub fn proof_request_body(
    address: &str,
    storage_keys: &[String],
    block_hash: &str,
) -> (body: String)
    ensures
        body@ == request_text(
            json_string_literal(address@),
            literals(storage_keys@),
            json_string_literal(block_hash@),
        ),
{
    let address_literal = json_string(address);
    let mut key_literals: Vec<String> = Vec::new();
    let mut index: usize = 0;
    while index < storage_keys.len()
        invariant
            index <= storage_keys.len(),
            texts(key_literals@) == literals(storage_keys@.take(index as int)),
        decreases storage_keys.len() - index,
    {
        let ghost done = key_literals@;
        let literal = json_string(storage_keys[index].as_str());
        key_literals.push(literal);
        index += 1;
        proof {
            let seen = storage_keys@.take(index as int);
            assert(seen.drop_last() == storage_keys@.take(index - 1));
            assert(texts(key_literals@) =~= texts(done).push(literal@));
            assert(literals(seen) =~= literals(seen.drop_last()).push(literal@));
        }
    }
    assert(storage_keys@.take(index as int) == storage_keys@);
    let block_literal = json_string(block_hash);
    assemble_request(address_literal.as_str(), key_literals.as_slice(), block_literal.as_str())
}

} // verus!
