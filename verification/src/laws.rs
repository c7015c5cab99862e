//! Properties of the reply parser, stated and proved.
//!
//! Each proof function here states one guarantee of the library over whole
//! classes of inputs: how a well-formed breakdown line parses, that
//! unsupported lines are dropped without error, which defaults apply when
//! a numeric field fails to parse, and that parsing is a pure function of
//! the reply.

use vstd::prelude::*;

use crate::catalog::MetricName;
use crate::catalog::spec_gauge_for_key;
use crate::catalog::spec_counter_for_key;
use crate::num::spec_parse_number;
use crate::num::spec_number_or_zero;
use crate::num::spec_micros_to_seconds;
use crate::num::spec_number_parts;
use crate::num::is_digit;
use crate::parser::SpecOp;
use crate::parser::SpecUpdate;
use crate::parser::spec_parse;
use crate::parser::spec_parse_line;
use crate::parser::spec_split_fields;
use crate::parser::spec_field_lookup;
use crate::parser::spec_field;
use crate::parser::spec_cmdstat_updates;
use crate::parser::spec_db_updates;
use crate::text::spec_find;
use crate::text::spec_split_once;
use crate::text::spec_starts_with;
use crate::text::lemma_find;
use crate::text::lemma_find_at;
use crate::text::lemma_find_none;
use vstd::string::StringSliceAdditionalSpecFns;
use vstd::utf8::is_ascii_chars;
use vstd::utf8::is_ascii_chars_encode_utf8;

verus! {

/// A byte that never acts as a separator or marker anywhere in the reply
/// grammar: not a line break, not a carriage return, not the section
/// marker, and none of the three field separators.
pub open spec fn plain_byte(b: u8) -> bool {
    b != 10 && b != 13 && b != 35 && b != 44 && b != 58 && b != 61
}

/// All bytes of a fragment are plain.
pub open spec fn all_plain(s: Seq<u8>) -> bool {
    forall|i: int| 0 <= i < s.len() ==> plain_byte(#[trigger] s[i])
}

proof fn lemma_bytes_calls()
    ensures
        "calls".spec_bytes().len() == 5,
        all_plain("calls".spec_bytes()),
{
    reveal_strlit("calls");
    assert(is_ascii_chars("calls"@));
    is_ascii_chars_encode_utf8("calls"@);
    assert forall|i: int| 0 <= i < "calls".spec_bytes().len() implies plain_byte(
        "calls".spec_bytes()[i],
    ) by {
        assert("calls".spec_bytes()[i] == "calls"@[i] as u8);
    }
}

proof fn lemma_bytes_rejected_calls()
    ensures
        "rejected_calls".spec_bytes().len() == 14,
        all_plain("rejected_calls".spec_bytes()),
{
    reveal_strlit("rejected_calls");
    assert(is_ascii_chars("rejected_calls"@));
    is_ascii_chars_encode_utf8("rejected_calls"@);
    assert forall|i: int| 0 <= i < "rejected_calls".spec_bytes().len() implies plain_byte(
        "rejected_calls".spec_bytes()[i],
    ) by {
        assert("rejected_calls".spec_bytes()[i] == "rejected_calls"@[i] as u8);
    }
}

proof fn lemma_bytes_usec()
    ensures
        "usec".spec_bytes().len() == 4,
        all_plain("usec".spec_bytes()),
{
    reveal_strlit("usec");
    assert(is_ascii_chars("usec"@));
    is_ascii_chars_encode_utf8("usec"@);
    assert forall|i: int| 0 <= i < "usec".spec_bytes().len() implies plain_byte(
        "usec".spec_bytes()[i],
    ) by {
        assert("usec".spec_bytes()[i] == "usec"@[i] as u8);
    }
}

proof fn lemma_bytes_keys()
    ensures
        "keys".spec_bytes().len() == 4,
        all_plain("keys".spec_bytes()),
{
    reveal_strlit("keys");
    assert(is_ascii_chars("keys"@));
    is_ascii_chars_encode_utf8("keys"@);
    assert forall|i: int| 0 <= i < "keys".spec_bytes().len() implies plain_byte(
        "keys".spec_bytes()[i],
    ) by {
        assert("keys".spec_bytes()[i] == "keys"@[i] as u8);
    }
}

proof fn lemma_bytes_expires()
    ensures
        "expires".spec_bytes().len() == 7,
        all_plain("expires".spec_bytes()),
{
    reveal_strlit("expires");
    assert(is_ascii_chars("expires"@));
    is_ascii_chars_encode_utf8("expires"@);
    assert forall|i: int| 0 <= i < "expires".spec_bytes().len() implies plain_byte(
        "expires".spec_bytes()[i],
    ) by {
        assert("expires".spec_bytes()[i] == "expires"@[i] as u8);
    }
}

proof fn lemma_bytes_cmdstat()
    ensures
        "cmdstat_".spec_bytes().len() == 8,
        all_plain("cmdstat_".spec_bytes()),
        "cmdstat_".spec_bytes()[0] == 99,
{
    reveal_strlit("cmdstat_");
    assert(is_ascii_chars("cmdstat_"@));
    is_ascii_chars_encode_utf8("cmdstat_"@);
    assert forall|i: int| 0 <= i < "cmdstat_".spec_bytes().len() implies plain_byte(
        "cmdstat_".spec_bytes()[i],
    ) by {
        assert("cmdstat_".spec_bytes()[i] == "cmdstat_"@[i] as u8);
    }
    assert("cmdstat_".spec_bytes()[0] == "cmdstat_"@[0] as u8);
}

proof fn lemma_bytes_db()
    ensures
        "db".spec_bytes().len() == 2,
        all_plain("db".spec_bytes()),
        "db".spec_bytes()[0] == 100,
        "db".spec_bytes()[1] == 98,
{
    reveal_strlit("db");
    assert(is_ascii_chars("db"@));
    is_ascii_chars_encode_utf8("db"@);
    assert forall|i: int| 0 <= i < "db".spec_bytes().len() implies plain_byte(
        "db".spec_bytes()[i],
    ) by {
        assert("db".spec_bytes()[i] == "db"@[i] as u8);
    }
    assert("db".spec_bytes()[0] == "db"@[0] as u8);
    assert("db".spec_bytes()[1] == "db"@[1] as u8);
}

#[verifier::rlimit(100)]
proof fn lemma_catalog_first_bytes_a()
    ensures
        "up".spec_bytes()[0] != 100,
        "connected_clients".spec_bytes()[0] != 100,
        "pubsub_clients".spec_bytes()[0] != 100,
        "total_blocking_keys_on_nokey".spec_bytes()[0] != 100,
        "client_recent_max_input_buffer".spec_bytes()[0] != 100,
        "allocator_frag_ratio".spec_bytes()[0] != 100,
        "used_memory".spec_bytes()[0] != 100,
        "used_memory_vm_eval".spec_bytes()[0] != 100,
        "used_memory_dataset".spec_bytes()[0] != 100,
        "used_memory_vm_functions".spec_bytes()[0] != 100,
        "maxmemory".spec_bytes()[0] != 100,
        "master_last_io_seconds_ago".spec_bytes()[0] != 100,
{
    reveal_strlit("up");
    assert(is_ascii_chars("up"@));
    is_ascii_chars_encode_utf8("up"@);
    assert("up".spec_bytes()[0] == "up"@[0] as u8);
    reveal_strlit("connected_clients");
    assert(is_ascii_chars("connected_clients"@));
    is_ascii_chars_encode_utf8("connected_clients"@);
    assert("connected_clients".spec_bytes()[0] == "connected_clients"@[0] as u8);
    reveal_strlit("pubsub_clients");
    assert(is_ascii_chars("pubsub_clients"@));
    is_ascii_chars_encode_utf8("pubsub_clients"@);
    assert("pubsub_clients".spec_bytes()[0] == "pubsub_clients"@[0] as u8);
    reveal_strlit("total_blocking_keys_on_nokey");
    assert(is_ascii_chars("total_blocking_keys_on_nokey"@));
    is_ascii_chars_encode_utf8("total_blocking_keys_on_nokey"@);
    assert("total_blocking_keys_on_nokey".spec_bytes()[0] == "total_blocking_keys_on_nokey"@[0] as u8);
    reveal_strlit("client_recent_max_input_buffer");
    assert(is_ascii_chars("client_recent_max_input_buffer"@));
    is_ascii_chars_encode_utf8("client_recent_max_input_buffer"@);
    assert("client_recent_max_input_buffer".spec_bytes()[0] == "client_recent_max_input_buffer"@[0] as u8);
    reveal_strlit("allocator_frag_ratio");
    assert(is_ascii_chars("allocator_frag_ratio"@));
    is_ascii_chars_encode_utf8("allocator_frag_ratio"@);
    assert("allocator_frag_ratio".spec_bytes()[0] == "allocator_frag_ratio"@[0] as u8);
    reveal_strlit("used_memory");
    assert(is_ascii_chars("used_memory"@));
    is_ascii_chars_encode_utf8("used_memory"@);
    assert("used_memory".spec_bytes()[0] == "used_memory"@[0] as u8);
    reveal_strlit("used_memory_vm_eval");
    assert(is_ascii_chars("used_memory_vm_eval"@));
    is_ascii_chars_encode_utf8("used_memory_vm_eval"@);
    assert("used_memory_vm_eval".spec_bytes()[0] == "used_memory_vm_eval"@[0] as u8);
    reveal_strlit("used_memory_dataset");
    assert(is_ascii_chars("used_memory_dataset"@));
    is_ascii_chars_encode_utf8("used_memory_dataset"@);
    assert("used_memory_dataset".spec_bytes()[0] == "used_memory_dataset"@[0] as u8);
    reveal_strlit("used_memory_vm_functions");
    assert(is_ascii_chars("used_memory_vm_functions"@));
    is_ascii_chars_encode_utf8("used_memory_vm_functions"@);
    assert("used_memory_vm_functions".spec_bytes()[0] == "used_memory_vm_functions"@[0] as u8);
    reveal_strlit("maxmemory");
    assert(is_ascii_chars("maxmemory"@));
    is_ascii_chars_encode_utf8("maxmemory"@);
    assert("maxmemory".spec_bytes()[0] == "maxmemory"@[0] as u8);
    reveal_strlit("master_last_io_seconds_ago");
    assert(is_ascii_chars("master_last_io_seconds_ago"@));
    is_ascii_chars_encode_utf8("master_last_io_seconds_ago"@);
    assert("master_last_io_seconds_ago".spec_bytes()[0] == "master_last_io_seconds_ago"@[0] as u8);
}

#[verifier::rlimit(100)]
proof fn lemma_catalog_first_bytes_b()
    ensures
        "uptime_in_seconds".spec_bytes()[0] != 100,
        "blocked_clients".spec_bytes()[0] != 100,
        "watching_clients".spec_bytes()[0] != 100,
        "client_longest_output_list".spec_bytes()[0] != 100,
        "allocator_active".spec_bytes()[0] != 100,
        "allocator_frag_bytes".spec_bytes()[0] != 100,
        "used_memory_rss".spec_bytes()[0] != 100,
        "used_memory_scripts_eval".spec_bytes()[0] != 100,
        "number_of_cached_scripts".spec_bytes()[0] != 100,
        "used_memory_scripts".spec_bytes()[0] != 100,
        "mem_fragmentation_ratio".spec_bytes()[0] != 100,
        "connected_slaves".spec_bytes()[0] != 100,
{
    reveal_strlit("uptime_in_seconds");
    assert(is_ascii_chars("uptime_in_seconds"@));
    is_ascii_chars_encode_utf8("uptime_in_seconds"@);
    assert("uptime_in_seconds".spec_bytes()[0] == "uptime_in_seconds"@[0] as u8);
    reveal_strlit("blocked_clients");
    assert(is_ascii_chars("blocked_clients"@));
    is_ascii_chars_encode_utf8("blocked_clients"@);
    assert("blocked_clients".spec_bytes()[0] == "blocked_clients"@[0] as u8);
    reveal_strlit("watching_clients");
    assert(is_ascii_chars("watching_clients"@));
    is_ascii_chars_encode_utf8("watching_clients"@);
    assert("watching_clients".spec_bytes()[0] == "watching_clients"@[0] as u8);
    reveal_strlit("client_longest_output_list");
    assert(is_ascii_chars("client_longest_output_list"@));
    is_ascii_chars_encode_utf8("client_longest_output_list"@);
    assert("client_longest_output_list".spec_bytes()[0] == "client_longest_output_list"@[0] as u8);
    reveal_strlit("allocator_active");
    assert(is_ascii_chars("allocator_active"@));
    is_ascii_chars_encode_utf8("allocator_active"@);
    assert("allocator_active".spec_bytes()[0] == "allocator_active"@[0] as u8);
    reveal_strlit("allocator_frag_bytes");
    assert(is_ascii_chars("allocator_frag_bytes"@));
    is_ascii_chars_encode_utf8("allocator_frag_bytes"@);
    assert("allocator_frag_bytes".spec_bytes()[0] == "allocator_frag_bytes"@[0] as u8);
    reveal_strlit("used_memory_rss");
    assert(is_ascii_chars("used_memory_rss"@));
    is_ascii_chars_encode_utf8("used_memory_rss"@);
    assert("used_memory_rss".spec_bytes()[0] == "used_memory_rss"@[0] as u8);
    reveal_strlit("used_memory_scripts_eval");
    assert(is_ascii_chars("used_memory_scripts_eval"@));
    is_ascii_chars_encode_utf8("used_memory_scripts_eval"@);
    assert("used_memory_scripts_eval".spec_bytes()[0] == "used_memory_scripts_eval"@[0] as u8);
    reveal_strlit("number_of_cached_scripts");
    assert(is_ascii_chars("number_of_cached_scripts"@));
    is_ascii_chars_encode_utf8("number_of_cached_scripts"@);
    assert("number_of_cached_scripts".spec_bytes()[0] == "number_of_cached_scripts"@[0] as u8);
    reveal_strlit("used_memory_scripts");
    assert(is_ascii_chars("used_memory_scripts"@));
    is_ascii_chars_encode_utf8("used_memory_scripts"@);
    assert("used_memory_scripts".spec_bytes()[0] == "used_memory_scripts"@[0] as u8);
    reveal_strlit("mem_fragmentation_ratio");
    assert(is_ascii_chars("mem_fragmentation_ratio"@));
    is_ascii_chars_encode_utf8("mem_fragmentation_ratio"@);
    assert("mem_fragmentation_ratio".spec_bytes()[0] == "mem_fragmentation_ratio"@[0] as u8);
    reveal_strlit("connected_slaves");
    assert(is_ascii_chars("connected_slaves"@));
    is_ascii_chars_encode_utf8("connected_slaves"@);
    assert("connected_slaves".spec_bytes()[0] == "connected_slaves"@[0] as u8);
}

#[verifier::rlimit(100)]
proof fn lemma_catalog_first_bytes_c()
    ensures
        "process_id".spec_bytes()[0] != 100,
        "tracking_clients".spec_bytes()[0] != 100,
        "total_watched_keys".spec_bytes()[0] != 100,
        "client_biggest_input_buf".spec_bytes()[0] != 100,
        "allocator_allocated".spec_bytes()[0] != 100,
        "allocator_rss_ratio".spec_bytes()[0] != 100,
        "used_memory_peak".spec_bytes()[0] != 100,
        "used_memory_overhead".spec_bytes()[0] != 100,
        "number_of_functions".spec_bytes()[0] != 100,
        "used_memory_functions".spec_bytes()[0] != 100,
        "keyspace_hits".spec_bytes()[0] != 100,
        "evicted_keys".spec_bytes()[0] != 100,
{
    reveal_strlit("process_id");
    assert(is_ascii_chars("process_id"@));
    is_ascii_chars_encode_utf8("process_id"@);
    assert("process_id".spec_bytes()[0] == "process_id"@[0] as u8);
    reveal_strlit("tracking_clients");
    assert(is_ascii_chars("tracking_clients"@));
    is_ascii_chars_encode_utf8("tracking_clients"@);
    assert("tracking_clients".spec_bytes()[0] == "tracking_clients"@[0] as u8);
    reveal_strlit("total_watched_keys");
    assert(is_ascii_chars("total_watched_keys"@));
    is_ascii_chars_encode_utf8("total_watched_keys"@);
    assert("total_watched_keys".spec_bytes()[0] == "total_watched_keys"@[0] as u8);
    reveal_strlit("client_biggest_input_buf");
    assert(is_ascii_chars("client_biggest_input_buf"@));
    is_ascii_chars_encode_utf8("client_biggest_input_buf"@);
    assert("client_biggest_input_buf".spec_bytes()[0] == "client_biggest_input_buf"@[0] as u8);
    reveal_strlit("allocator_allocated");
    assert(is_ascii_chars("allocator_allocated"@));
    is_ascii_chars_encode_utf8("allocator_allocated"@);
    assert("allocator_allocated".spec_bytes()[0] == "allocator_allocated"@[0] as u8);
    reveal_strlit("allocator_rss_ratio");
    assert(is_ascii_chars("allocator_rss_ratio"@));
    is_ascii_chars_encode_utf8("allocator_rss_ratio"@);
    assert("allocator_rss_ratio".spec_bytes()[0] == "allocator_rss_ratio"@[0] as u8);
    reveal_strlit("used_memory_peak");
    assert(is_ascii_chars("used_memory_peak"@));
    is_ascii_chars_encode_utf8("used_memory_peak"@);
    assert("used_memory_peak".spec_bytes()[0] == "used_memory_peak"@[0] as u8);
    reveal_strlit("used_memory_overhead");
    assert(is_ascii_chars("used_memory_overhead"@));
    is_ascii_chars_encode_utf8("used_memory_overhead"@);
    assert("used_memory_overhead".spec_bytes()[0] == "used_memory_overhead"@[0] as u8);
    reveal_strlit("number_of_functions");
    assert(is_ascii_chars("number_of_functions"@));
    is_ascii_chars_encode_utf8("number_of_functions"@);
    assert("number_of_functions".spec_bytes()[0] == "number_of_functions"@[0] as u8);
    reveal_strlit("used_memory_functions");
    assert(is_ascii_chars("used_memory_functions"@));
    is_ascii_chars_encode_utf8("used_memory_functions"@);
    assert("used_memory_functions".spec_bytes()[0] == "used_memory_functions"@[0] as u8);
    reveal_strlit("keyspace_hits");
    assert(is_ascii_chars("keyspace_hits"@));
    is_ascii_chars_encode_utf8("keyspace_hits"@);
    assert("keyspace_hits".spec_bytes()[0] == "keyspace_hits"@[0] as u8);
    reveal_strlit("evicted_keys");
    assert(is_ascii_chars("evicted_keys"@));
    is_ascii_chars_encode_utf8("evicted_keys"@);
    assert("evicted_keys".spec_bytes()[0] == "evicted_keys"@[0] as u8);
}

#[verifier::rlimit(100)]
proof fn lemma_catalog_first_bytes_d()
    ensures
        "io_threads_active".spec_bytes()[0] != 100,
        "clients_in_timeout_table".spec_bytes()[0] != 100,
        "total_blocking_keys".spec_bytes()[0] != 100,
        "client_recent_max_output_buffer".spec_bytes()[0] != 100,
        "allocator_resident".spec_bytes()[0] != 100,
        "allocator_rss_bytes".spec_bytes()[0] != 100,
        "used_memory_lua".spec_bytes()[0] != 100,
        "used_memory_startup".spec_bytes()[0] != 100,
        "number_of_libraries".spec_bytes()[0] != 100,
        "used_memory_vm_total".spec_bytes()[0] != 100,
        "keyspace_misses".spec_bytes()[0] != 100,
{
    reveal_strlit("io_threads_active");
    assert(is_ascii_chars("io_threads_active"@));
    is_ascii_chars_encode_utf8("io_threads_active"@);
    assert("io_threads_active".spec_bytes()[0] == "io_threads_active"@[0] as u8);
    reveal_strlit("clients_in_timeout_table");
    assert(is_ascii_chars("clients_in_timeout_table"@));
    is_ascii_chars_encode_utf8("clients_in_timeout_table"@);
    assert("clients_in_timeout_table".spec_bytes()[0] == "clients_in_timeout_table"@[0] as u8);
    reveal_strlit("total_blocking_keys");
    assert(is_ascii_chars("total_blocking_keys"@));
    is_ascii_chars_encode_utf8("total_blocking_keys"@);
    assert("total_blocking_keys".spec_bytes()[0] == "total_blocking_keys"@[0] as u8);
    reveal_strlit("client_recent_max_output_buffer");
    assert(is_ascii_chars("client_recent_max_output_buffer"@));
    is_ascii_chars_encode_utf8("client_recent_max_output_buffer"@);
    assert("client_recent_max_output_buffer".spec_bytes()[0] == "client_recent_max_output_buffer"@[0] as u8);
    reveal_strlit("allocator_resident");
    assert(is_ascii_chars("allocator_resident"@));
    is_ascii_chars_encode_utf8("allocator_resident"@);
    assert("allocator_resident".spec_bytes()[0] == "allocator_resident"@[0] as u8);
    reveal_strlit("allocator_rss_bytes");
    assert(is_ascii_chars("allocator_rss_bytes"@));
    is_ascii_chars_encode_utf8("allocator_rss_bytes"@);
    assert("allocator_rss_bytes".spec_bytes()[0] == "allocator_rss_bytes"@[0] as u8);
    reveal_strlit("used_memory_lua");
    assert(is_ascii_chars("used_memory_lua"@));
    is_ascii_chars_encode_utf8("used_memory_lua"@);
    assert("used_memory_lua".spec_bytes()[0] == "used_memory_lua"@[0] as u8);
    reveal_strlit("used_memory_startup");
    assert(is_ascii_chars("used_memory_startup"@));
    is_ascii_chars_encode_utf8("used_memory_startup"@);
    assert("used_memory_startup".spec_bytes()[0] == "used_memory_startup"@[0] as u8);
    reveal_strlit("number_of_libraries");
    assert(is_ascii_chars("number_of_libraries"@));
    is_ascii_chars_encode_utf8("number_of_libraries"@);
    assert("number_of_libraries".spec_bytes()[0] == "number_of_libraries"@[0] as u8);
    reveal_strlit("used_memory_vm_total");
    assert(is_ascii_chars("used_memory_vm_total"@));
    is_ascii_chars_encode_utf8("used_memory_vm_total"@);
    assert("used_memory_vm_total".spec_bytes()[0] == "used_memory_vm_total"@[0] as u8);
    reveal_strlit("keyspace_misses");
    assert(is_ascii_chars("keyspace_misses"@));
    is_ascii_chars_encode_utf8("keyspace_misses"@);
    assert("keyspace_misses".spec_bytes()[0] == "keyspace_misses"@[0] as u8);
}

/// No catalog key begins with the letter the per-database keys begin
/// with: a key starting with `d` is never a catalog gauge or counter.
#[verifier::rlimit(100)]
pub proof fn lemma_d_key_not_catalog(key: Seq<u8>)
    requires
        key.len() > 0,
        key[0] == 100,
    ensures
        spec_gauge_for_key(key) is None,
        spec_counter_for_key(key) is None,
{
    lemma_catalog_first_bytes_a();
    lemma_catalog_first_bytes_b();
    lemma_catalog_first_bytes_c();
    lemma_catalog_first_bytes_d();
    reveal(spec_gauge_for_key);
}

/// Every byte of a numeral that parses is plain: a sign, a digit or the
/// decimal point, never a separator of the reply grammar.
pub proof fn lemma_number_plain(s: Seq<u8>)
    requires
        spec_parse_number(s).is_some(),
    ensures
        all_plain(s),
{
    let (_, b) = spec_number_parts(s);
    let off: int = if s.len() > 0 && (s[0] == 43 || s[0] == 45) {
        1
    } else {
        0
    };
    assert(b =~= s.skip(off));
    assert forall|i: int| 0 <= i < s.len() implies plain_byte(s[i]) by {
        if i < off {
        } else {
            assert(s[i] == b[i - off]);
            let j = i - off;
            match spec_find(b, 46) {
                None => {
                    assert(is_digit(b[j]));
                },
                Some(p) => {
                    lemma_find(b, 46);
                    if j < p {
                        assert(b.subrange(0, p)[j] == b[j]);
                        assert(is_digit(b[j]));
                    } else if j == p {
                        assert(b[j] == 46);
                    } else {
                        assert(b.subrange(p + 1, b.len() as int)[j - p - 1] == b[j]);
                        assert(is_digit(b[j]));
                    }
                },
            }
        }
    }
}

/// Splitting `key : rest` at the separator, when the key holds none.
pub proof fn lemma_split_clean(key: Seq<u8>, rest: Seq<u8>, sep: u8)
    requires
        forall|i: int| 0 <= i < key.len() ==> key[i] != sep,
    ensures
        spec_split_once(key + seq![sep] + rest, sep) == Some((key, rest)),
{
    let line = key + seq![sep] + rest;
    assert(line[key.len() as int] == sep);
    assert(forall|j: int| 0 <= j < key.len() ==> line[j] == key[j]);
    lemma_find_at(line, sep, key.len() as int);
    assert(line.subrange(0, key.len() as int) =~= key);
    assert(line.subrange(key.len() as int + 1, line.len() as int) =~= rest);
}

/// A fragment without a comma is one field.
pub proof fn lemma_fields_single(a: Seq<u8>)
    requires
        forall|i: int| 0 <= i < a.len() ==> a[i] != 44,
    ensures
        spec_split_fields(a) == seq![a],
{
    lemma_find_none(a, 44);
}

/// The first comma after a comma-free fragment splits one field off.
pub proof fn lemma_fields_step(a: Seq<u8>, b: Seq<u8>)
    requires
        forall|i: int| 0 <= i < a.len() ==> a[i] != 44,
    ensures
        spec_split_fields(a + seq![44] + b) == seq![a] + spec_split_fields(b),
{
    let whole = a + seq![44] + b;
    assert(whole[a.len() as int] == 44);
    assert(forall|j: int| 0 <= j < a.len() ==> whole[j] == a[j]);
    lemma_find_at(whole, 44, a.len() as int);
    assert(whole.subrange(0, a.len() as int) =~= a);
    assert(whole.subrange(a.len() as int + 1, whole.len() as int) =~= b);
}

/// Parsing is a pure function of the reply text: the same reply always
/// yields the same update sequence, however often it is parsed.
pub proof fn lemma_parse_deterministic(a: Seq<u8>, b: Seq<u8>)
    requires
        a == b,
    ensures
        spec_parse(a) == spec_parse(b),
{
}

/// A well-formed per-command line, `cmdstat_` followed by the command
/// name, the separator, and the three fields `calls`, `rejected_calls`
/// and `usec`, yields exactly three gauge updates labeled with the
/// command name: the calls and rejected-calls values as given, and the
/// duration as the `usec` value divided by one million, exactly.
pub proof fn lemma_cmdstat_line(cmd: Seq<u8>, c: Seq<u8>, r: Seq<u8>, u: Seq<u8>)
    requires
        forall|i: int| 0 <= i < cmd.len() ==> cmd[i] != 58,
        spec_parse_number(c).is_some(),
        spec_parse_number(r).is_some(),
        spec_parse_number(u).is_some(),
    ensures
        ({
            let key = "cmdstat_".spec_bytes() + cmd;
            let rest = "calls".spec_bytes() + seq![61u8] + c + seq![44u8]
                + "rejected_calls".spec_bytes() + seq![61u8] + r + seq![44u8]
                + "usec".spec_bytes() + seq![61u8] + u;
            spec_parse_line(key + seq![58u8] + rest) == seq![
                SpecUpdate {
                    name: MetricName::CommandsTotal,
                    labels: seq![cmd],
                    op: SpecOp::SetGauge(spec_parse_number(c).unwrap()),
                },
                SpecUpdate {
                    name: MetricName::CommandsRejectedCallsTotal,
                    labels: seq![cmd],
                    op: SpecOp::SetGauge(spec_parse_number(r).unwrap()),
                },
                SpecUpdate {
                    name: MetricName::CommandsDurationSecondsTotal,
                    labels: seq![cmd],
                    op: SpecOp::SetGauge(spec_micros_to_seconds(spec_parse_number(u).unwrap())),
                },
            ]
        }),
{
    lemma_bytes_cmdstat();
    lemma_bytes_calls();
    lemma_bytes_rejected_calls();
    lemma_bytes_usec();
    lemma_number_plain(c);
    lemma_number_plain(r);
    lemma_number_plain(u);
    let key = "cmdstat_".spec_bytes() + cmd;
    let f1 = "calls".spec_bytes() + seq![61u8] + c;
    let f2 = "rejected_calls".spec_bytes() + seq![61u8] + r;
    let f3 = "usec".spec_bytes() + seq![61u8] + u;
    let rest = "calls".spec_bytes() + seq![61u8] + c + seq![44u8] + "rejected_calls".spec_bytes()
        + seq![61u8] + r + seq![44u8] + "usec".spec_bytes() + seq![61u8] + u;
    let line = key + seq![58u8] + rest;
    assert(line[0] == 99);
    assert(forall|i: int| 0 <= i < key.len() ==> key[i] != 58);
    lemma_split_clean(key, rest, 58);
    assert(spec_starts_with(key, "cmdstat_".spec_bytes())) by {
        assert(key.subrange(0, 8) =~= "cmdstat_".spec_bytes());
    }
    assert(key.skip("cmdstat_".spec_bytes().len() as int) =~= cmd);

    assert(rest =~= f1 + seq![44u8] + (f2 + seq![44u8] + f3));
    assert(forall|i: int| 0 <= i < f1.len() ==> f1[i] != 44);
    assert(forall|i: int| 0 <= i < f2.len() ==> f2[i] != 44);
    assert(forall|i: int| 0 <= i < f3.len() ==> f3[i] != 44);
    lemma_fields_step(f1, f2 + seq![44u8] + f3);
    lemma_fields_step(f2, f3);
    lemma_fields_single(f3);
    let frags = seq![f1, f2, f3];
    assert(spec_split_fields(rest) =~= frags);

    lemma_split_clean("calls".spec_bytes(), c, 61);
    lemma_split_clean("rejected_calls".spec_bytes(), r, 61);
    lemma_split_clean("usec".spec_bytes(), u, 61);
    assert(frags.drop_last() =~= seq![f1, f2]);
    assert(seq![f1, f2].drop_last() =~= seq![f1]);
    assert(seq![f1].drop_last() =~= Seq::<Seq<u8>>::empty());

    assert(spec_field_lookup(seq![f1], "calls".spec_bytes()) == Some(c));
    assert(spec_field_lookup(seq![f1, f2], "calls".spec_bytes()) == Some(c));
    assert(spec_field(rest, "calls".spec_bytes()) == Some(c));
    assert(spec_field_lookup(seq![f1, f2], "rejected_calls".spec_bytes()) == Some(r));
    assert(spec_field(rest, "rejected_calls".spec_bytes()) == Some(r));
    assert(spec_field(rest, "usec".spec_bytes()) == Some(u));

    assert(spec_cmdstat_updates(cmd, rest) =~= seq![
        SpecUpdate {
            name: MetricName::CommandsTotal,
            labels: seq![cmd],
            op: SpecOp::SetGauge(spec_number_or_zero(c)),
        },
        SpecUpdate {
            name: MetricName::CommandsRejectedCallsTotal,
            labels: seq![cmd],
            op: SpecOp::SetGauge(spec_number_or_zero(r)),
        },
        SpecUpdate {
            name: MetricName::CommandsDurationSecondsTotal,
            labels: seq![cmd],
            op: SpecOp::SetGauge(spec_micros_to_seconds(spec_number_or_zero(u))),
        },
    ]);
}

/// A well-formed per-database line, a `db` key followed by digits and the
/// `keys` and `expires` fields, yields exactly the two gauge updates
/// labeled with the database key.
pub proof fn lemma_db_line(key: Seq<u8>, k: Seq<u8>, e: Seq<u8>)
    requires
        key.len() >= 2,
        key[0] == 100,
        key[1] == 98,
        forall|i: int| 2 <= i < key.len() ==> is_digit(#[trigger] key[i]),
        spec_parse_number(k).is_some(),
        spec_parse_number(e).is_some(),
    ensures
        ({
            let rest = "keys".spec_bytes() + seq![61u8] + k + seq![44u8] + "expires".spec_bytes()
                + seq![61u8] + e;
            spec_parse_line(key + seq![58u8] + rest) == seq![
                SpecUpdate {
                    name: MetricName::DbKeys,
                    labels: seq![key],
                    op: SpecOp::SetGauge(spec_parse_number(k).unwrap()),
                },
                SpecUpdate {
                    name: MetricName::DbKeysExpiring,
                    labels: seq![key],
                    op: SpecOp::SetGauge(spec_parse_number(e).unwrap()),
                },
            ]
        }),
{
    lemma_bytes_cmdstat();
    lemma_bytes_db();
    lemma_bytes_keys();
    lemma_bytes_expires();
    lemma_number_plain(k);
    lemma_number_plain(e);
    lemma_d_key_not_catalog(key);
    let f1 = "keys".spec_bytes() + seq![61u8] + k;
    let f2 = "expires".spec_bytes() + seq![61u8] + e;
    let rest = "keys".spec_bytes() + seq![61u8] + k + seq![44u8] + "expires".spec_bytes()
        + seq![61u8] + e;
    let line = key + seq![58u8] + rest;
    assert(line[0] == 100);
    assert(forall|i: int| 0 <= i < key.len() ==> key[i] != 58);
    lemma_split_clean(key, rest, 58);
    assert(!spec_starts_with(key, "cmdstat_".spec_bytes())) by {
        if spec_starts_with(key, "cmdstat_".spec_bytes()) {
            assert(key.subrange(0, 8)[0] == key[0]);
        }
    }
    assert(spec_starts_with(key, "db".spec_bytes())) by {
        assert(key.subrange(0, 2) =~= "db".spec_bytes());
    }

    assert(rest =~= f1 + seq![44u8] + f2);
    assert(forall|i: int| 0 <= i < f1.len() ==> f1[i] != 44);
    assert(forall|i: int| 0 <= i < f2.len() ==> f2[i] != 44);
    lemma_fields_step(f1, f2);
    lemma_fields_single(f2);
    let frags = seq![f1, f2];
    assert(spec_split_fields(rest) =~= frags);

    lemma_split_clean("keys".spec_bytes(), k, 61);
    lemma_split_clean("expires".spec_bytes(), e, 61);
    assert(frags.drop_last() =~= seq![f1]);
    assert(seq![f1].drop_last() =~= Seq::<Seq<u8>>::empty());
    assert(spec_field_lookup(seq![f1], "keys".spec_bytes()) == Some(k));
    assert(spec_field(rest, "keys".spec_bytes()) == Some(k));
    assert(spec_field(rest, "expires".spec_bytes()) == Some(e));

    assert(spec_db_updates(key, rest) =~= seq![
        SpecUpdate {
            name: MetricName::DbKeys,
            labels: seq![key],
            op: SpecOp::SetGauge(spec_parse_number(k).unwrap()),
        },
        SpecUpdate {
            name: MetricName::DbKeysExpiring,
            labels: seq![key],
            op: SpecOp::SetGauge(spec_parse_number(e).unwrap()),
        },
    ]);
}

/// On a catalog gauge line whose value fails numeric parse, the update is
/// not dropped: zero is substituted.
pub proof fn lemma_gauge_default_zero(key: Seq<u8>, rest: Seq<u8>, n: MetricName)
    requires
        key.len() > 0,
        key[0] != 35,
        forall|i: int| 0 <= i < key.len() ==> key[i] != 58,
        !spec_starts_with(key, "cmdstat_".spec_bytes()),
        spec_gauge_for_key(key) == Some(n),
        spec_parse_number(rest).is_none(),
    ensures
        spec_parse_line(key + seq![58u8] + rest) == seq![
            SpecUpdate { name: n, labels: Seq::empty(), op: SpecOp::SetGauge(0) },
        ],
{
    let line = key + seq![58u8] + rest;
    assert(line[0] == key[0]);
    lemma_split_clean(key, rest, 58);
}

/// On a per-database line, by contrast, a field whose value fails numeric
/// parse is omitted, not defaulted: only the field that parses yields an
/// update.
pub proof fn lemma_db_malformed_field_omitted(key: Seq<u8>, k: Seq<u8>, e: Seq<u8>)
    requires
        key.len() >= 2,
        key[0] == 100,
        key[1] == 98,
        forall|i: int| 2 <= i < key.len() ==> is_digit(#[trigger] key[i]),
        all_plain(k),
        spec_parse_number(k).is_none(),
        spec_parse_number(e).is_some(),
    ensures
        ({
            let rest = "keys".spec_bytes() + seq![61u8] + k + seq![44u8] + "expires".spec_bytes()
                + seq![61u8] + e;
            spec_parse_line(key + seq![58u8] + rest) == seq![
                SpecUpdate {
                    name: MetricName::DbKeysExpiring,
                    labels: seq![key],
                    op: SpecOp::SetGauge(spec_parse_number(e).unwrap()),
                },
            ]
        }),
{
    lemma_bytes_cmdstat();
    lemma_bytes_db();
    lemma_bytes_keys();
    lemma_bytes_expires();
    lemma_number_plain(e);
    lemma_d_key_not_catalog(key);
    let f1 = "keys".spec_bytes() + seq![61u8] + k;
    let f2 = "expires".spec_bytes() + seq![61u8] + e;
    let rest = "keys".spec_bytes() + seq![61u8] + k + seq![44u8] + "expires".spec_bytes()
        + seq![61u8] + e;
    let line = key + seq![58u8] + rest;
    assert(line[0] == 100);
    assert(forall|i: int| 0 <= i < key.len() ==> key[i] != 58);
    lemma_split_clean(key, rest, 58);
    assert(!spec_starts_with(key, "cmdstat_".spec_bytes())) by {
        if spec_starts_with(key, "cmdstat_".spec_bytes()) {
            assert(key.subrange(0, 8)[0] == key[0]);
        }
    }
    assert(spec_starts_with(key, "db".spec_bytes())) by {
        assert(key.subrange(0, 2) =~= "db".spec_bytes());
    }

    assert(rest =~= f1 + seq![44u8] + f2);
    assert(forall|i: int| 0 <= i < f1.len() ==> f1[i] != 44);
    assert(forall|i: int| 0 <= i < f2.len() ==> f2[i] != 44);
    lemma_fields_step(f1, f2);
    lemma_fields_single(f2);
    let frags = seq![f1, f2];
    assert(spec_split_fields(rest) =~= frags);

    lemma_split_clean("keys".spec_bytes(), k, 61);
    lemma_split_clean("expires".spec_bytes(), e, 61);
    assert(frags.drop_last() =~= seq![f1]);
    assert(seq![f1].drop_last() =~= Seq::<Seq<u8>>::empty());
    assert(spec_field_lookup(seq![f1], "keys".spec_bytes()) == Some(k));
    assert(spec_field(rest, "keys".spec_bytes()) == Some(k));
    assert(spec_field(rest, "expires".spec_bytes()) == Some(e));

    assert(spec_db_updates(key, rest) =~= seq![
        SpecUpdate {
            name: MetricName::DbKeysExpiring,
            labels: seq![key],
            op: SpecOp::SetGauge(spec_parse_number(e).unwrap()),
        },
    ]);
}

/// A line whose key is absent from the catalog and matches neither the
/// per-command nor the per-database prefix yields no update at all, and
/// no error: it is dropped.
pub proof fn lemma_unknown_key_dropped(key: Seq<u8>, rest: Seq<u8>)
    requires
        key.len() > 0,
        key[0] != 35,
        forall|i: int| 0 <= i < key.len() ==> key[i] != 58,
        spec_gauge_for_key(key) is None,
        spec_counter_for_key(key) is None,
        !spec_starts_with(key, "cmdstat_".spec_bytes()),
        !spec_starts_with(key, "db".spec_bytes()),
    ensures
        spec_parse_line(key + seq![58] + rest) == Seq::<SpecUpdate>::empty(),
{
    let line = key + seq![58] + rest;
    assert(line[0] == key[0]);
    lemma_split_clean(key, rest, 58);
}

} // verus!
