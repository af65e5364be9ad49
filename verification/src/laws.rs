//! What holds of the commands taken together, and of the store over a run of
//! requests.

use crate::command::{command_reply, command_store, names_command, Reply};
use crate::database::{lookup, Content, Store};
use crate::parser::Request;
use vstd::prelude::*;
use vstd::utf8::{
    decode_utf8_encode_utf8, encode_utf8, encode_utf8_decode_utf8, encode_utf8_valid_utf8,
    is_ascii_chars, is_ascii_chars_encode_utf8,
};

verus! {

/// An argument reads as the text `word` exactly when its bytes are the
/// encoding of `word`.
pub proof fn lemma_text_of_word(request: Request, index: int, word: Seq<char>)
    ensures
        request.text(index) == Some(word) <==> request.arg(index) == Some(encode_utf8(word)),
{
    encode_utf8_valid_utf8(word);
    encode_utf8_decode_utf8(word);
    if request.text(index) == Some(word) {
        decode_utf8_encode_utf8(request.arg(index)->0);
    }
}

/// The four command names as bytes. No two of them are the same.
pub proof fn lemma_command_names()
    ensures
        encode_utf8("set"@) == seq![115u8, 101u8, 116u8],
        encode_utf8("append"@) == seq![97u8, 112u8, 112u8, 101u8, 110u8, 100u8],
        encode_utf8("get"@) == seq![103u8, 101u8, 116u8],
        encode_utf8("ping"@) == seq![112u8, 105u8, 110u8, 103u8],
        "set"@ != "append"@,
        "set"@ != "get"@,
        "set"@ != "ping"@,
        "append"@ != "get"@,
        "append"@ != "ping"@,
        "get"@ != "ping"@,
{
    reveal_strlit("set");
    reveal_strlit("append");
    reveal_strlit("get");
    reveal_strlit("ping");
    assert(is_ascii_chars("set"@));
    assert(is_ascii_chars("append"@));
    assert(is_ascii_chars("get"@));
    assert(is_ascii_chars("ping"@));
    is_ascii_chars_encode_utf8("set"@);
    is_ascii_chars_encode_utf8("append"@);
    is_ascii_chars_encode_utf8("get"@);
    is_ascii_chars_encode_utf8("ping"@);
    assert(encode_utf8("set"@) =~= seq![115u8, 101u8, 116u8]);
    assert(encode_utf8("append"@) =~= seq![97u8, 112u8, 112u8, 101u8, 110u8, 100u8]);
    assert(encode_utf8("get"@) =~= seq![103u8, 101u8, 116u8]);
    assert(encode_utf8("ping"@) =~= seq![112u8, 105u8, 110u8, 103u8]);
    assert("set"@[0] != "get"@[0]);
}

/// A request without arguments is rejected, whatever the store holds, and
/// the store stays as it is.
pub proof fn lemma_empty_request(request: Request, store: Store)
    requires
        request.argc == 0,
    ensures
        command_reply(request, store) == Reply::Error("Not enough arguments"@),
        command_store(request, store) == store,
{
}

/// A request whose first argument is text that names no command is
/// rejected as unknown, whatever else it holds, and the store stays as it is.
pub proof fn lemma_unknown_command(request: Request, store: Store, name: Seq<char>)
    requires
        request.argc > 0,
        request.text(0) == Some(name),
        !names_command(name),
    ensures
        command_reply(request, store) == Reply::Error("Unknown command"@),
        command_store(request, store) == store,
{
}

/// A rejected request leaves the store as it was.
pub proof fn lemma_rejected_leaves_store(request: Request, store: Store)
    requires
        command_reply(request, store) is Error,
    ensures
        command_store(request, store) == store,
{
}

/// Whether `request` is a `set` or an `append` that stores a value under
/// `key`.
pub open spec fn stores_under(request: Request, key: Seq<u8>) -> bool {
    &&& request.text(0) == Some("set"@) || request.text(0) == Some("append"@)
    &&& request.argc == 3
    &&& request.arg(1) == Some(key)
    &&& request.arg(2) is Some
}

/// Whether `request` is a `get` of `key`.
pub open spec fn asks_for(request: Request, key: Seq<u8>) -> bool {
    &&& request.text(0) == Some("get"@)
    &&& request.argc == 2
    &&& request.arg(1) == Some(key)
}

/// A request that stores a value under a key is acknowledged, and changes
/// the store under that key and nowhere else.
pub proof fn lemma_set_stores(setting: Request, key: Seq<u8>, store: Store)
    requires
        stores_under(setting, key),
    ensures
        command_reply(setting, store) == Reply::Status("OK"@),
        command_store(setting, store) == store.insert(key, Content::Data(setting.arg(2)->0)),
{
    lemma_command_names();
}

/// After `set key val`, `get key` answers `val`, whatever the store held
/// before. The same holds after `append key val`.
pub proof fn lemma_set_then_get(setting: Request, getting: Request, key: Seq<u8>, store: Store)
    requires
        stores_under(setting, key),
        asks_for(getting, key),
    ensures
        command_reply(getting, command_store(setting, store)) == Reply::Data(setting.arg(2)->0),
{
    lemma_command_names();
}

/// The store after it handled the requests of `history` in turn, from
/// `store`.
pub open spec fn replay(history: Seq<Request>, store: Store) -> Store
    decreases history.len(),
{
    if history.len() == 0 {
        store
    } else {
        command_store(history.last(), replay(history.drop_last(), store))
    }
}

/// A store holds nothing under a key that no request stored a value under.
pub proof fn lemma_untouched_key(history: Seq<Request>, key: Seq<u8>, store: Store)
    requires
        !store.contains_key(key),
        forall|i: int| 0 <= i < history.len() ==> !stores_under(#[trigger] history[i], key),
    ensures
        !replay(history, store).contains_key(key),
    decreases history.len(),
{
    if history.len() > 0 {
        lemma_untouched_key(history.drop_last(), key, store);
        assert(!stores_under(history.last(), key));
        lemma_command_names();
    }
}

/// `get` of a key that was never set answers `Nil`: so it is on the empty
/// store after any run of requests of which none stored a value under the
/// key.
pub proof fn lemma_get_never_set(history: Seq<Request>, getting: Request, key: Seq<u8>)
    requires
        forall|i: int| 0 <= i < history.len() ==> !stores_under(#[trigger] history[i], key),
        asks_for(getting, key),
    ensures
        command_reply(getting, replay(history, Map::empty())) == Reply::Nil,
{
    lemma_untouched_key(history, key, Map::empty());
    lemma_command_names();
}

/// Handling a request twice leaves the store as handling it once does, and
/// the second answer is the first.
pub proof fn lemma_repeated_request(request: Request, store: Store)
    ensures
        command_store(request, command_store(request, store)) == command_store(request, store),
        command_reply(request, command_store(request, store)) == command_reply(request, store),
{
    let once = command_store(request, store);
    assert(command_store(request, once) =~= once);
    lemma_command_names();
}

/// `set key val` twice is `set key val` once: the store holds `val` under
/// `key`, one entry for the key, and everything else as before.
pub proof fn lemma_set_twice(setting: Request, key: Seq<u8>, store: Store)
    requires
        stores_under(setting, key),
    ensures
        command_store(setting, command_store(setting, store)) == command_store(setting, store),
        command_store(setting, store)[key] == Content::Data(setting.arg(2)->0),
        command_store(setting, store).dom() == store.dom().insert(key),
        forall|other: Seq<u8>| other != key ==> lookup(command_store(setting, store), other) == lookup(store, other),
{
    lemma_set_stores(setting, key, store);
    lemma_repeated_request(setting, store);
    assert(command_store(setting, store).dom() =~= store.dom().insert(key));
}

} // verus!
