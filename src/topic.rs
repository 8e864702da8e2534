use vstd::prelude::*;
use vstd::string::{StrSliceExecFns, StringExecFns};

verus! {

/// Every device publishes on this prefix followed by its external id.
pub const TOPIC_PREFIX: &'static str = "$USR/DevJsonTx/";

/// Number of characters of `TOPIC_PREFIX`.
pub const TOPIC_PREFIX_LEN: usize = 15;

/// The device's external id: the topic without its first 15 characters;
/// `None` for a topic shorter than that.
pub fn device_id_in_topic(topic: &str) -> (r: Option<&str>)
    ensures
        r is Some <==> topic@.len() >= TOPIC_PREFIX_LEN,
        r matches Some(id) ==> id@ == topic@.skip(TOPIC_PREFIX_LEN as int),
{
    let n = topic.unicode_len();
    if n < TOPIC_PREFIX_LEN {
        None
    } else {
        Some(topic.substring_char(TOPIC_PREFIX_LEN, n))
    }
}

/// The topic a device with external id `device_id` publishes on.
pub fn topic_for_device(device_id: &str) -> (r: String)
    ensures
        r@ == TOPIC_PREFIX@ + device_id@,
        r@.len() == TOPIC_PREFIX_LEN + device_id@.len(),
{
    proof {
        reveal_strlit("$USR/DevJsonTx/");
    }
    String::from_str(TOPIC_PREFIX).concat(device_id)
}

/// The topics of all the given devices, in order.
pub fn topics(device_ids: &Vec<String>) -> (r: Vec<String>)
    ensures
        r@.len() == device_ids@.len(),
        forall|i: int| 0 <= i < r@.len() ==> #[trigger] r@[i]@ == TOPIC_PREFIX@ + device_ids@[i]@,
{
    let mut out: Vec<String> = Vec::new();
    let mut i: usize = 0;
    while i < device_ids.len()
        invariant
            0 <= i <= device_ids@.len(),
            out@.len() == i,
            forall|j: int| 0 <= j < i ==> #[trigger] out@[j]@ == TOPIC_PREFIX@ + device_ids@[j]@,
        decreases device_ids@.len() - i,
    {
        out.push(topic_for_device(device_ids[i].as_str()));
        i = i + 1;
    }
    out
}

/// Recovering the device id from the topic built for it gives the id back.
pub proof fn lemma_topic_round_trip(device_id: Seq<char>)
    ensures
        (TOPIC_PREFIX@ + device_id).len() >= TOPIC_PREFIX_LEN,
        (TOPIC_PREFIX@ + device_id).skip(TOPIC_PREFIX_LEN as int) == device_id,
{
    reveal_strlit("$USR/DevJsonTx/");
    assert((TOPIC_PREFIX@ + device_id).skip(TOPIC_PREFIX_LEN as int) =~= device_id);
}

} // verus!
