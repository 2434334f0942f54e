//! Custom proto options of the form `key=value`.
use vstd::prelude::*;
use crate::error::Error;
use crate::str_map::StrMap;
use crate::text::{chars_of, find_char, first_index, lemma_first_index, string_from_range, views};

verus! {

/// Separates the key from the value of a custom option.
pub const KV_SEPARATOR: char = '=';

/// Whether `kv` splits at its first `=` into a non-empty key and a non-empty value.
pub open spec fn is_valid_kv(kv: Seq<char>) -> bool {
    match first_index(kv, '=') {
        None => false,
        Some(i) => 0 < i && i < kv.len() - 1,
    }
}

/// The key of a valid `key=value` option.
pub open spec fn kv_key(kv: Seq<char>) -> Seq<char> {
    kv.take(first_index(kv, '=').unwrap())
}

/// The value of a valid `key=value` option: everything after the first `=`.
pub open spec fn kv_value(kv: Seq<char>) -> Seq<char> {
    kv.skip(first_index(kv, '=').unwrap() + 1)
}

/// `m` with each option of `kvs` stored in turn, later keys replacing earlier ones.
pub open spec fn with_options(m: Map<Seq<char>, Seq<char>>, kvs: Seq<Seq<char>>) -> Map<Seq<char>, Seq<char>>
    decreases kvs.len(),
{
    if kvs.len() == 0 {
        m
    } else {
        with_options(m, kvs.drop_last()).insert(kv_key(kvs.last()), kv_value(kvs.last()))
    }
}

/// Splits `kv` at its first `=` into key and value; an error unless both are non-empty.
pub fn split_kv_or_error(kv: &str) -> (r: Result<(String, String), Error>)
    ensures
        r matches Ok((k, v)) ==> is_valid_kv(kv@) && k@ == kv_key(kv@) && v@ == kv_value(kv@),
        r matches Err(e) ==> !is_valid_kv(kv@) && (e matches Error::InvalidKeyValue(s) && s@ == kv@),
{
    let v = chars_of(kv);
    match find_char(&v, KV_SEPARATOR) {
        None => Err(Error::InvalidKeyValue(kv.to_owned())),
        Some(i) => {
            if i == 0 || i + 1 == v.len() {
                return Err(Error::InvalidKeyValue(kv.to_owned()));
            }
            let key = string_from_range(&v, 0, i);
            let value = string_from_range(&v, i + 1, v.len());
            assert(v@.subrange(0, i as int) =~= v@.take(i as int));
            assert(v@.subrange(i + 1, v@.len() as int) =~= v@.skip(i + 1));
            Ok((key, value))
        },
    }
}

/// Stores each `key=value` option of `key_values` in `map`, in order. Stops at the first
/// option that is not valid and reports it; the options before it stay stored.
pub fn insert_custom_options(map: &mut StrMap<String>, key_values: &Vec<String>) -> (r: Result<(), Error>)
    ensures
        r is Ok <==> forall|j: int| 0 <= j < key_values@.len() ==> is_valid_kv(#[trigger] key_values@[j]@),
        r is Ok ==> final(map)@.map_values(|s: String| s@) == with_options(old(map)@.map_values(|s: String| s@), views(key_values@)),
        r matches Err(e) ==> exists|k: int| 0 <= k < key_values@.len()
            && !is_valid_kv(key_values@[k]@)
            && (forall|j: int| 0 <= j < k ==> is_valid_kv(#[trigger] key_values@[j]@))
            && (e matches Error::InvalidKeyValue(s) && s@ == key_values@[k]@),
{
    let ghost start = old(map)@.map_values(|s: String| s@);
    let mut i: usize = 0;
    while i < key_values.len()
        invariant
            i <= key_values.len(),
            start == old(map)@.map_values(|s: String| s@),
            forall|j: int| 0 <= j < i ==> is_valid_kv(#[trigger] key_values@[j]@),
            map@.map_values(|s: String| s@) == with_options(start, views(key_values@).take(i as int)),
        decreases key_values.len() - i,
    {
        let (key, value) = match split_kv_or_error(key_values[i].as_str()) {
            Ok(kv) => kv,
            Err(e) => {
                return Err(e);
            },
        };
        let ghost before = map@;
        map.insert(key, value);
        proof {
            let kvs = views(key_values@).take(i + 1);
            assert(kvs.drop_last() =~= views(key_values@).take(i as int));
            assert(kvs.last() == key_values@[i as int]@);
            assert(map@.map_values(|s: String| s@) =~= with_options(start, kvs));
        }
        i = i + 1;
    }
    assert(views(key_values@).take(key_values@.len() as int) =~= views(key_values@));
    Ok(())
}


/// A valid option is its key, `=` and its value, and its key holds no `=`: splitting
/// loses nothing.
pub proof fn lemma_kv_round_trip(kv: Seq<char>)
    requires
        is_valid_kv(kv),
    ensures
        kv_key(kv) + seq!['='] + kv_value(kv) == kv,
        !kv_key(kv).contains('='),
        kv_key(kv).len() > 0,
        kv_value(kv).len() > 0,
{
    lemma_first_index(kv, '=');
    let i = first_index(kv, '=').unwrap();
    assert(kv_key(kv) + seq!['='] + kv_value(kv) =~= kv);
    assert(!kv_key(kv).contains('=')) by {
        if kv_key(kv).contains('=') {
            let j = choose|j: int| 0 <= j < kv_key(kv).len() && kv_key(kv)[j] == '=';
            assert(kv[j] == '=');
        }
    }
}

} // verus!
