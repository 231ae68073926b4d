//! Properties of the commands, stated over their meaning and proved.
use vstd::prelude::*;

use crate::instruction::{
    config_matches, duration_of, px, expiry_of, reply_of, store_after, InstructionName,
};
use crate::reply::{null_bulk, pong, resp_array, simple_string};

verus! {

/// A `GET` of a key that was just `SET` answers with the value written.
pub proof fn lemma_set_then_get(
    k: Seq<u8>,
    v: Seq<u8>,
    store: Map<Seq<u8>, Seq<u8>>,
    config: Map<Seq<u8>, Seq<u8>>,
)
    ensures
        reply_of(
            InstructionName::Get,
            seq![k],
            store_after(InstructionName::SetValue, seq![k, v], store),
            config,
        ) == simple_string(v),
{
    assert(seq![k, v][0] == k);
}

/// A `GET` of a key that the store does not hold answers with the null bulk string.
pub proof fn lemma_get_absent(
    k: Seq<u8>,
    store: Map<Seq<u8>, Seq<u8>>,
    config: Map<Seq<u8>, Seq<u8>>,
)
    requires
        !store.contains_key(k),
    ensures
        reply_of(InstructionName::Get, seq![k], store, config) == null_bulk(),
        store_after(InstructionName::Get, seq![k], store) == store,
{
}

/// `PING` answers `+PONG` and changes nothing, whatever came before.
pub proof fn lemma_ping(
    args: Seq<Seq<u8>>,
    store: Map<Seq<u8>, Seq<u8>>,
    config: Map<Seq<u8>, Seq<u8>>,
)
    ensures
        reply_of(InstructionName::Ping, args, store, config) == pong(),
        store_after(InstructionName::Ping, args, store) == store,
        expiry_of(InstructionName::Ping, args) is None,
{
}

/// `ECHO x` answers with `x` as a simple string.
pub proof fn lemma_echo(
    x: Seq<u8>,
    store: Map<Seq<u8>, Seq<u8>>,
    config: Map<Seq<u8>, Seq<u8>>,
)
    ensures
        reply_of(InstructionName::Echo, seq![x], store, config) == simple_string(x),
        store_after(InstructionName::Echo, seq![x], store) == store,
{
}

/// `SET k v px d` with a readable delay writes `v` under `k`, so that a `GET`
/// right after answers `v`, and schedules the removal of that same key after
/// `d` milliseconds; once removed, a `GET` answers the null bulk string.
pub proof fn lemma_set_with_expiry(
    k: Seq<u8>,
    v: Seq<u8>,
    d: Seq<u8>,
    store: Map<Seq<u8>, Seq<u8>>,
    config: Map<Seq<u8>, Seq<u8>>,
)
    requires
        duration_of(d) is Some,
    ensures
        ({
            let args = seq![k, v, px(), d];
            let after = store_after(InstructionName::SetValue, args, store);
            &&& reply_of(InstructionName::Get, seq![k], after, config) == simple_string(v)
            &&& expiry_of(InstructionName::SetValue, args) == Some((k, duration_of(d)->Some_0))
            &&& reply_of(InstructionName::Get, seq![k], after.remove(k), config) == null_bulk()
        }),
{
    let args = seq![k, v, px(), d];
    assert(args[0] == k && args[1] == v && args[2] == px() && args[3] == d);
}

/// Two `SET`s of one key, applied one after the other in either order, leave
/// the value of one of them, whole.
pub proof fn lemma_set_set(
    k: Seq<u8>,
    v1: Seq<u8>,
    v2: Seq<u8>,
    store: Map<Seq<u8>, Seq<u8>>,
)
    ensures
        ({
            let first = store_after(
                InstructionName::SetValue,
                seq![k, v2],
                store_after(InstructionName::SetValue, seq![k, v1], store),
            );
            let second = store_after(
                InstructionName::SetValue,
                seq![k, v1],
                store_after(InstructionName::SetValue, seq![k, v2], store),
            );
            &&& first.contains_key(k) && first[k] == v2
            &&& second.contains_key(k) && second[k] == v1
        }),
{
    assert(seq![k, v1][0] == k && seq![k, v1][1] == v1);
    assert(seq![k, v2][0] == k && seq![k, v2][1] == v2);
}

/// `CONFIG GET name` answers with an array that holds the pair of `name` if
/// the configuration has it, and nothing else.
pub proof fn lemma_config_get(
    sub: Seq<u8>,
    name: Seq<u8>,
    store: Map<Seq<u8>, Seq<u8>>,
    config: Map<Seq<u8>, Seq<u8>>,
)
    ensures
        reply_of(InstructionName::Config, seq![sub, name], store, config) == resp_array(config_matches(config, name)),
        config.contains_key(name) ==> config_matches(config, name) == seq![(name, config[name])],
        !config.contains_key(name) ==> config_matches(config, name).len() == 0,
        forall|i: int| 0 <= i < config_matches(config, name).len() ==> (#[trigger] config_matches(config, name)[i]).0 == name,
        store_after(InstructionName::Config, seq![sub, name], store) == store,
{
    assert(seq![sub, name][1] == name);
}

} // verus!
