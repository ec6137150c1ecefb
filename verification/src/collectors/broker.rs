//! Message broker monitoring: the admin/metrics port of a Redpanda or Kafka
//! broker, from its command line or its container's port mappings, and the
//! counters its Prometheus metrics page reports.
use vstd::prelude::*;
use crate::collectors::ports::{chars_eq, find_host_port, first_host_port, parse_port, string_views};
use crate::models::MessageBrokerType;
use crate::text::{
    chars_of, find_chars, find_from, lines, parse_u16, seqs, slice_chars, split_lines, split_words, starts_with,
    starts_with_chars, string_from_chars, trim, trim_chars, words,
};

verus! {

/// State of the connection to a monitored broker.
#[derive(Clone, Debug, PartialEq, Eq)]
pub enum BrokerConnectionStatus {
    Disconnected,
    Connecting,
    Connected,
    Error(String),
}

/// Redpanda's admin port and the usual Kafka metrics exporter port.
pub open spec fn default_broker_port(t: MessageBrokerType) -> u16 {
    match t {
        MessageBrokerType::Redpanda => 9644,
        MessageBrokerType::Kafka => 9404,
    }
}

pub open spec fn broker_port_text(t: MessageBrokerType) -> Seq<char> {
    match t {
        MessageBrokerType::Redpanda => "9644"@,
        MessageBrokerType::Kafka => "9404"@,
    }
}

/// The port that word `i` announces: the next word after `-p` or `--port`.
pub open spec fn broker_port_at(ws: Seq<Seq<char>>, i: int) -> Option<nat> {
    if (ws[i] == "-p"@ || ws[i] == "--port"@) && i + 1 < ws.len() {
        parse_port(ws[i + 1])
    } else {
        None
    }
}

pub open spec fn first_broker_port(ws: Seq<Seq<char>>, i: int) -> Option<nat>
    decreases ws.len() - i,
{
    if i < 0 || i >= ws.len() {
        None
    } else if broker_port_at(ws, i) is Some {
        broker_port_at(ws, i)
    } else {
        first_broker_port(ws, i + 1)
    }
}

pub open spec fn broker_port_of_cmd(cmd: Seq<char>, t: MessageBrokerType) -> u16 {
    match first_broker_port(words(cmd), 0) {
        Some(p) => p as u16,
        None => default_broker_port(t),
    }
}

/// The metrics port of a broker started with command line `cmd`: the first
/// port that `-p N` or `--port N` names, or the broker's default.
pub fn extract_broker_port(cmd: &str, broker_type: MessageBrokerType) -> (r: u16)
    ensures
        r == broker_port_of_cmd(cmd@, broker_type),
{
    let cs = chars_of(cmd);
    let ws = split_words(&cs);
    let ghost wv = seqs(ws@);
    let flag1 = chars_of("-p");
    let flag2 = chars_of("--port");
    let mut i: usize = 0;
    while i < ws.len()
        invariant
            i <= ws.len(),
            wv == seqs(ws@),
            wv == words(cmd@),
            flag1@ == "-p"@,
            flag2@ == "--port"@,
            first_broker_port(wv, 0) == first_broker_port(wv, i as int),
        decreases ws.len() - i,
    {
        let w = &ws[i];
        assert(w@ == wv[i as int]);
        if (chars_eq(w.as_slice(), flag1.as_slice()) || chars_eq(w.as_slice(), flag2.as_slice()))
            && i + 1 < ws.len() {
            assert(ws[i + 1]@ == wv[i + 1]);
            if let Some(port) = parse_u16(ws[i + 1].as_slice()) {
                return port;
            }
        }
        i += 1;
    }
    match broker_type {
        MessageBrokerType::Redpanda => 9644,
        MessageBrokerType::Kafka => 9404,
    }
}

pub open spec fn broker_container_host_port(ports: Seq<Seq<char>>, t: MessageBrokerType) -> u16 {
    match first_host_port(ports, broker_port_text(t), 0) {
        Some(p) => p as u16,
        None => default_broker_port(t),
    }
}

/// The host port under which a broker container publishes its metrics port.
pub fn extract_container_host_port(ports: &[String], broker_type: MessageBrokerType) -> (r: u16)
    ensures
        r == broker_container_host_port(string_views(ports@), broker_type),
{
    let target = match broker_type {
        MessageBrokerType::Redpanda => chars_of("9644"),
        MessageBrokerType::Kafka => chars_of("9404"),
    };
    match find_host_port(ports, target.as_slice()) {
        Some(p) => p,
        None => match broker_type {
            MessageBrokerType::Redpanda => 9644,
            MessageBrokerType::Kafka => 9404,
        },
    }
}


/// The whole-number counters a broker's metrics page reports.
#[derive(Clone, Copy, Debug, Default, PartialEq, Eq, Structural)]
pub struct BrokerCounters {
    pub under_replicated_partitions: u32,
    pub consumer_lag: u64,
    pub active_topics: u32,
    pub active_partitions: u32,
    pub active_consumers: u32,
    pub raw_messages_total: u64,
    pub raw_bytes_total: u64,
}

/// The metric name and value text of a line of a Prometheus page: the line
/// is trimmed; empty lines and comments give nothing; with labels the name
/// is what precedes `{` and the value what follows `}`, trimmed; otherwise
/// the first two words; a line with fewer parts gives nothing.
pub open spec fn sample_of(line: Seq<char>) -> Option<(Seq<char>, Seq<char>)> {
    let t = trim(line);
    if t.len() == 0 || starts_with(t, "#"@) {
        None
    } else {
        let parts = match find_from(t, "{"@, 0) {
            Some(b) => {
                let rest = t.skip(b);
                match find_from(rest, "}"@, 0) {
                    Some(e) => seq![t.take(b), trim(rest.skip(e + 1))],
                    None => words(t),
                }
            },
            None => words(t),
        };
        if parts.len() < 2 {
            None
        } else {
            Some((trim(parts[0]), trim(parts[1])))
        }
    }
}

fn sample_exec(line: &Vec<char>) -> (r: Option<(String, String)>)
    ensures
        r is Some <==> sample_of(line@) is Some,
        r matches Some((k, v)) ==> sample_of(line@) == Some((k@, v@)),
{
    let t = trim_chars(line.as_slice());
    let hash = chars_of("#");
    if t.len() == 0 || starts_with_chars(t.as_slice(), hash.as_slice()) {
        return None;
    }
    let open = chars_of("{");
    let close = chars_of("}");
    proof {
        reveal_strlit("}");
    }
    let parts: Vec<Vec<char>> = match find_chars(t.as_slice(), open.as_slice(), 0) {
        Some(b) => {
            let rest = slice_chars(t.as_slice(), b, t.len());
            assert(rest@ =~= t@.skip(b as int));
            match find_chars(rest.as_slice(), close.as_slice(), 0) {
                Some(e) => {
                    let name = slice_chars(t.as_slice(), 0, b);
                    assert(name@ =~= t@.take(b as int));
                    let after = slice_chars(rest.as_slice(), e + 1, rest.len());
                    assert(after@ =~= rest@.skip(e + 1));
                    let value = trim_chars(after.as_slice());
                    let v = vec![name, value];
                    assert(seqs(v@) =~= seq![t@.take(b as int), trim(rest@.skip(e + 1))]);
                    v
                },
                None => split_words(&t),
            }
        },
        None => split_words(&t),
    };
    if parts.len() < 2 {
        return None;
    }
    assert(parts@[0]@ == seqs(parts@)[0] && parts@[1]@ == seqs(parts@)[1]);
    let k = trim_chars(parts[0].as_slice());
    let v = trim_chars(parts[1].as_slice());
    Some((string_from_chars(k.as_slice()), string_from_chars(v.as_slice())))
}

pub open spec fn line_samples(ls: Seq<Seq<char>>) -> Seq<(Seq<char>, Seq<char>)>
    decreases ls.len(),
{
    if ls.len() == 0 {
        Seq::empty()
    } else {
        let p = line_samples(ls.drop_last());
        match sample_of(ls.last()) {
            Some(x) => p.push(x),
            None => p,
        }
    }
}

pub open spec fn pair_views(v: Seq<(String, String)>) -> Seq<(Seq<char>, Seq<char>)> {
    v.map_values(|p: (String, String)| (p.0@, p.1@))
}

/// The samples of a Prometheus page, in order, as (metric name, value
/// text).
pub fn metric_samples(body: &str) -> (r: Vec<(String, String)>)
    ensures
        pair_views(r@) == line_samples(lines(body@)),
{
    let cs = chars_of(body);
    let ls = split_lines(cs.as_slice());
    let ghost lv = seqs(ls@);
    let mut r: Vec<(String, String)> = Vec::new();
    let mut i: usize = 0;
    while i < ls.len()
        invariant
            i <= ls@.len(),
            lv == seqs(ls@),
            lv == lines(body@),
            pair_views(r@) == line_samples(lv.take(i as int)),
        decreases ls.len() - i,
    {
        proof {
            assert(lv.take(i + 1).drop_last() =~= lv.take(i as int));
            assert(lv.take(i + 1).last() == ls@[i as int]@);
        }
        match sample_exec(&ls[i]) {
            Some(x) => {
                let ghost before = r@;
                r.push(x);
                assert(pair_views(r@) =~= pair_views(before).push((r@.last().0@, r@.last().1@)));
            },
            None => {},
        }
        i += 1;
    }
    assert(lv.take(lv.len() as int) =~= lv);
    r
}

/// A sample with its value read as a number and cut to whole numbers the
/// way a fractional value converts: to 64 and to 32 bits, negative values
/// and unreadable ones as 0, values too large as the largest.
pub struct BrokerSample {
    pub key: String,
    pub as_u64: u64,
    pub as_u32: u32,
}

pub open spec fn is_lag_key(k: Seq<char>) -> bool {
    k == "redpanda_kafka_max_consumer_lag"@ || k == "redpanda_kafka_consumer_group_lag"@ || k
        == "kafka_consumergroup_lag"@ || k == "kafka_consumer_group_lag"@
}

pub open spec fn is_under_replicated_key(k: Seq<char>) -> bool {
    k == "redpanda_cluster_partition_under_replicated_replicas"@ || k == "redpanda_under_replicated_partition"@
        || k == "kafka_server_ReplicaManager_UnderReplicatedPartitions"@ || k
        == "kafka_server_replica_manager_underreplicatedpartitions"@
}

/// What one sample changes: under-replicated partitions, the largest
/// consumer lag seen, the byte counter (the sent-bytes counter only while
/// no byte counter was read), the message counter, and the numbers of
/// topics, partitions and consumer groups.
pub open spec fn broker_step(m: BrokerCounters, k: Seq<char>, v64: u64, v32: u32) -> BrokerCounters {
    if is_under_replicated_key(k) {
        BrokerCounters { under_replicated_partitions: v32, ..m }
    } else if is_lag_key(k) {
        if v64 > m.consumer_lag {
            BrokerCounters { consumer_lag: v64, ..m }
        } else {
            m
        }
    } else if k == "redpanda_kafka_request_bytes_total"@ || k == "kafka_server_brokertopicmetrics_bytesin_total"@ {
        BrokerCounters { raw_bytes_total: v64, ..m }
    } else if k == "redpanda_kafka_request_tx_bytes_total"@ || k
        == "kafka_server_brokertopicmetrics_bytesout_total"@ {
        if m.raw_bytes_total == 0 {
            BrokerCounters { raw_bytes_total: v64, ..m }
        } else {
            m
        }
    } else if k == "kafka_server_brokertopicmetrics_messagesin_total"@ {
        BrokerCounters { raw_messages_total: v64, ..m }
    } else if k == "redpanda_cluster_topics"@ || k == "kafka_controller_KafkaController_GlobalTopicCount"@ {
        BrokerCounters { active_topics: v32, ..m }
    } else if k == "redpanda_cluster_partitions"@ || k == "kafka_controller_KafkaController_GlobalPartitionCount"@ {
        BrokerCounters { active_partitions: v32, ..m }
    } else if k == "redpanda_kafka_consumer_groups"@ || k == "kafka_server_GroupMetadataManager_NumGroups"@ {
        BrokerCounters { active_consumers: v32, ..m }
    } else {
        m
    }
}

pub open spec fn broker_fold(m: BrokerCounters, ss: Seq<BrokerSample>) -> BrokerCounters
    decreases ss.len(),
{
    if ss.len() == 0 {
        m
    } else {
        let last = ss.last();
        broker_step(broker_fold(m, ss.drop_last()), last.key@, last.as_u64, last.as_u32)
    }
}

fn key_is(k: &Vec<char>, w: &str) -> (b: bool)
    ensures
        b == (k@ == w@),
{
    let wc = chars_of(w);
    chars_eq(k.as_slice(), wc.as_slice())
}

fn broker_step_exec(m: &mut BrokerCounters, s: &BrokerSample)
    ensures
        *final(m) == broker_step(*old(m), s.key@, s.as_u64, s.as_u32),
{
    let k = chars_of(s.key.as_str());
    if key_is(&k, "redpanda_cluster_partition_under_replicated_replicas") || key_is(
        &k,
        "redpanda_under_replicated_partition",
    ) || key_is(&k, "kafka_server_ReplicaManager_UnderReplicatedPartitions") || key_is(
        &k,
        "kafka_server_replica_manager_underreplicatedpartitions",
    ) {
        m.under_replicated_partitions = s.as_u32;
    } else if key_is(&k, "redpanda_kafka_max_consumer_lag") || key_is(&k, "redpanda_kafka_consumer_group_lag")
        || key_is(&k, "kafka_consumergroup_lag") || key_is(&k, "kafka_consumer_group_lag") {
        if s.as_u64 > m.consumer_lag {
            m.consumer_lag = s.as_u64;
        }
    } else if key_is(&k, "redpanda_kafka_request_bytes_total") || key_is(
        &k,
        "kafka_server_brokertopicmetrics_bytesin_total",
    ) {
        m.raw_bytes_total = s.as_u64;
    } else if key_is(&k, "redpanda_kafka_request_tx_bytes_total") || key_is(
        &k,
        "kafka_server_brokertopicmetrics_bytesout_total",
    ) {
        if m.raw_bytes_total == 0 {
            m.raw_bytes_total = s.as_u64;
        }
    } else if key_is(&k, "kafka_server_brokertopicmetrics_messagesin_total") {
        m.raw_messages_total = s.as_u64;
    } else if key_is(&k, "redpanda_cluster_topics") || key_is(&k, "kafka_controller_KafkaController_GlobalTopicCount") {
        m.active_topics = s.as_u32;
    } else if key_is(&k, "redpanda_cluster_partitions") || key_is(
        &k,
        "kafka_controller_KafkaController_GlobalPartitionCount",
    ) {
        m.active_partitions = s.as_u32;
    } else if key_is(&k, "redpanda_kafka_consumer_groups") || key_is(&k, "kafka_server_GroupMetadataManager_NumGroups") {
        m.active_consumers = s.as_u32;
    }
}

/// Applies the samples of a broker's metrics page, in order, to `m`.
pub fn apply_broker_samples(samples: &Vec<BrokerSample>, m: &mut BrokerCounters)
    ensures
        *final(m) == broker_fold(*old(m), samples@),
{
    let ghost start = *m;
    let mut i: usize = 0;
    while i < samples.len()
        invariant
            i <= samples@.len(),
            *m == broker_fold(start, samples@.take(i as int)),
            start == *old(m),
        decreases samples.len() - i,
    {
        proof {
            assert(samples@.take(i + 1).drop_last() =~= samples@.take(i as int));
        }
        broker_step_exec(m, &samples[i]);
        i += 1;
    }
    assert(samples@.take(samples@.len() as int) =~= samples@);
}

/// A partition-count sample (Redpanda's cluster partitions or Kafka's
/// controller global partition count) sets the number of partitions to its
/// value and changes nothing else.
pub proof fn law_broker_partition_count(m: BrokerCounters, k: Seq<char>, v64: u64, v32: u32)
    requires
        k == "redpanda_cluster_partitions"@ || k == "kafka_controller_KafkaController_GlobalPartitionCount"@,
    ensures
        broker_step(m, k, v64, v32).active_partitions == v32,
        broker_step(m, k, v64, v32) == (BrokerCounters { active_partitions: v32, ..m }),
{
    reveal_strlit("redpanda_cluster_partition_under_replicated_replicas");
    reveal_strlit("redpanda_under_replicated_partition");
    reveal_strlit("kafka_server_ReplicaManager_UnderReplicatedPartitions");
    reveal_strlit("kafka_server_replica_manager_underreplicatedpartitions");
    reveal_strlit("redpanda_kafka_max_consumer_lag");
    reveal_strlit("redpanda_kafka_consumer_group_lag");
    reveal_strlit("kafka_consumergroup_lag");
    reveal_strlit("kafka_consumer_group_lag");
    reveal_strlit("redpanda_kafka_request_bytes_total");
    reveal_strlit("kafka_server_brokertopicmetrics_bytesin_total");
    reveal_strlit("redpanda_kafka_request_tx_bytes_total");
    reveal_strlit("kafka_server_brokertopicmetrics_bytesout_total");
    reveal_strlit("kafka_server_brokertopicmetrics_messagesin_total");
    reveal_strlit("redpanda_cluster_topics");
    reveal_strlit("kafka_controller_KafkaController_GlobalTopicCount");
    reveal_strlit("redpanda_cluster_partitions");
    reveal_strlit("kafka_controller_KafkaController_GlobalPartitionCount");
    reveal_strlit("redpanda_kafka_consumer_groups");
    reveal_strlit("kafka_server_GroupMetadataManager_NumGroups");
    if k == "redpanda_cluster_partitions"@ {
            assert("redpanda_cluster_partitions"@.len() != "redpanda_cluster_partition_under_replicated_replicas"@.len());
            assert("redpanda_cluster_partitions"@.len() != "redpanda_under_replicated_partition"@.len());
            assert("redpanda_cluster_partitions"@.len() != "kafka_server_ReplicaManager_UnderReplicatedPartitions"@.len());
            assert("redpanda_cluster_partitions"@.len() != "kafka_server_replica_manager_underreplicatedpartitions"@.len());
            assert("redpanda_cluster_partitions"@.len() != "redpanda_kafka_max_consumer_lag"@.len());
            assert("redpanda_cluster_partitions"@.len() != "redpanda_kafka_consumer_group_lag"@.len());
            assert("redpanda_cluster_partitions"@.len() != "kafka_consumergroup_lag"@.len());
            assert("redpanda_cluster_partitions"@.len() != "kafka_consumer_group_lag"@.len());
            assert("redpanda_cluster_partitions"@.len() != "redpanda_kafka_request_bytes_total"@.len());
            assert("redpanda_cluster_partitions"@.len() != "kafka_server_brokertopicmetrics_bytesin_total"@.len());
            assert("redpanda_cluster_partitions"@.len() != "redpanda_kafka_request_tx_bytes_total"@.len());
            assert("redpanda_cluster_partitions"@.len() != "kafka_server_brokertopicmetrics_bytesout_total"@.len());
            assert("redpanda_cluster_partitions"@.len() != "kafka_server_brokertopicmetrics_messagesin_total"@.len());
            assert("redpanda_cluster_partitions"@.len() != "redpanda_cluster_topics"@.len());
            assert("redpanda_cluster_partitions"@.len() != "kafka_controller_KafkaController_GlobalTopicCount"@.len());
    }
    if k == "kafka_controller_KafkaController_GlobalPartitionCount"@ {
            assert("kafka_controller_KafkaController_GlobalPartitionCount"@.len() != "redpanda_cluster_partition_under_replicated_replicas"@.len());
            assert("kafka_controller_KafkaController_GlobalPartitionCount"@.len() != "redpanda_under_replicated_partition"@.len());
            assert("kafka_controller_KafkaController_GlobalPartitionCount"@[6] != "kafka_server_ReplicaManager_UnderReplicatedPartitions"@[6]);
            assert("kafka_controller_KafkaController_GlobalPartitionCount"@.len() != "kafka_server_replica_manager_underreplicatedpartitions"@.len());
            assert("kafka_controller_KafkaController_GlobalPartitionCount"@.len() != "redpanda_kafka_max_consumer_lag"@.len());
            assert("kafka_controller_KafkaController_GlobalPartitionCount"@.len() != "redpanda_kafka_consumer_group_lag"@.len());
            assert("kafka_controller_KafkaController_GlobalPartitionCount"@.len() != "kafka_consumergroup_lag"@.len());
            assert("kafka_controller_KafkaController_GlobalPartitionCount"@.len() != "kafka_consumer_group_lag"@.len());
            assert("kafka_controller_KafkaController_GlobalPartitionCount"@.len() != "redpanda_kafka_request_bytes_total"@.len());
            assert("kafka_controller_KafkaController_GlobalPartitionCount"@.len() != "kafka_server_brokertopicmetrics_bytesin_total"@.len());
            assert("kafka_controller_KafkaController_GlobalPartitionCount"@.len() != "redpanda_kafka_request_tx_bytes_total"@.len());
            assert("kafka_controller_KafkaController_GlobalPartitionCount"@.len() != "kafka_server_brokertopicmetrics_bytesout_total"@.len());
            assert("kafka_controller_KafkaController_GlobalPartitionCount"@.len() != "kafka_server_brokertopicmetrics_messagesin_total"@.len());
            assert("kafka_controller_KafkaController_GlobalPartitionCount"@.len() != "redpanda_cluster_topics"@.len());
            assert("kafka_controller_KafkaController_GlobalPartitionCount"@.len() != "kafka_controller_KafkaController_GlobalTopicCount"@.len());
    }
}

/// A topic-count sample (Redpanda or Kafka) sets the number of topics to its
/// value and changes nothing else.
pub proof fn law_broker_topic_count(m: BrokerCounters, k: Seq<char>, v64: u64, v32: u32)
    requires
        k == "redpanda_cluster_topics"@ || k == "kafka_controller_KafkaController_GlobalTopicCount"@,
    ensures
        broker_step(m, k, v64, v32).active_topics == v32,
        broker_step(m, k, v64, v32) == (BrokerCounters { active_topics: v32, ..m }),
{
    reveal_strlit("redpanda_cluster_partition_under_replicated_replicas");
    reveal_strlit("redpanda_under_replicated_partition");
    reveal_strlit("kafka_server_ReplicaManager_UnderReplicatedPartitions");
    reveal_strlit("kafka_server_replica_manager_underreplicatedpartitions");
    reveal_strlit("redpanda_kafka_max_consumer_lag");
    reveal_strlit("redpanda_kafka_consumer_group_lag");
    reveal_strlit("kafka_consumergroup_lag");
    reveal_strlit("kafka_consumer_group_lag");
    reveal_strlit("redpanda_kafka_request_bytes_total");
    reveal_strlit("kafka_server_brokertopicmetrics_bytesin_total");
    reveal_strlit("redpanda_kafka_request_tx_bytes_total");
    reveal_strlit("kafka_server_brokertopicmetrics_bytesout_total");
    reveal_strlit("kafka_server_brokertopicmetrics_messagesin_total");
    reveal_strlit("redpanda_cluster_topics");
    reveal_strlit("kafka_controller_KafkaController_GlobalTopicCount");
    reveal_strlit("redpanda_cluster_partitions");
    reveal_strlit("kafka_controller_KafkaController_GlobalPartitionCount");
    reveal_strlit("redpanda_kafka_consumer_groups");
    reveal_strlit("kafka_server_GroupMetadataManager_NumGroups");
    if k == "redpanda_cluster_topics"@ {
            assert("redpanda_cluster_topics"@.len() != "redpanda_cluster_partition_under_replicated_replicas"@.len());
            assert("redpanda_cluster_topics"@.len() != "redpanda_under_replicated_partition"@.len());
            assert("redpanda_cluster_topics"@.len() != "kafka_server_ReplicaManager_UnderReplicatedPartitions"@.len());
            assert("redpanda_cluster_topics"@.len() != "kafka_server_replica_manager_underreplicatedpartitions"@.len());
            assert("redpanda_cluster_topics"@.len() != "redpanda_kafka_max_consumer_lag"@.len());
            assert("redpanda_cluster_topics"@.len() != "redpanda_kafka_consumer_group_lag"@.len());
            assert("redpanda_cluster_topics"@[0] != "kafka_consumergroup_lag"@[0]);
            assert("redpanda_cluster_topics"@.len() != "kafka_consumer_group_lag"@.len());
            assert("redpanda_cluster_topics"@.len() != "redpanda_kafka_request_bytes_total"@.len());
            assert("redpanda_cluster_topics"@.len() != "kafka_server_brokertopicmetrics_bytesin_total"@.len());
            assert("redpanda_cluster_topics"@.len() != "redpanda_kafka_request_tx_bytes_total"@.len());
            assert("redpanda_cluster_topics"@.len() != "kafka_server_brokertopicmetrics_bytesout_total"@.len());
            assert("redpanda_cluster_topics"@.len() != "kafka_server_brokertopicmetrics_messagesin_total"@.len());
    }
    if k == "kafka_controller_KafkaController_GlobalTopicCount"@ {
            assert("kafka_controller_KafkaController_GlobalTopicCount"@.len() != "redpanda_cluster_partition_under_replicated_replicas"@.len());
            assert("kafka_controller_KafkaController_GlobalTopicCount"@.len() != "redpanda_under_replicated_partition"@.len());
            assert("kafka_controller_KafkaController_GlobalTopicCount"@.len() != "kafka_server_ReplicaManager_UnderReplicatedPartitions"@.len());
            assert("kafka_controller_KafkaController_GlobalTopicCount"@.len() != "kafka_server_replica_manager_underreplicatedpartitions"@.len());
            assert("kafka_controller_KafkaController_GlobalTopicCount"@.len() != "redpanda_kafka_max_consumer_lag"@.len());
            assert("kafka_controller_KafkaController_GlobalTopicCount"@.len() != "redpanda_kafka_consumer_group_lag"@.len());
            assert("kafka_controller_KafkaController_GlobalTopicCount"@.len() != "kafka_consumergroup_lag"@.len());
            assert("kafka_controller_KafkaController_GlobalTopicCount"@.len() != "kafka_consumer_group_lag"@.len());
            assert("kafka_controller_KafkaController_GlobalTopicCount"@.len() != "redpanda_kafka_request_bytes_total"@.len());
            assert("kafka_controller_KafkaController_GlobalTopicCount"@.len() != "kafka_server_brokertopicmetrics_bytesin_total"@.len());
            assert("kafka_controller_KafkaController_GlobalTopicCount"@.len() != "redpanda_kafka_request_tx_bytes_total"@.len());
            assert("kafka_controller_KafkaController_GlobalTopicCount"@.len() != "kafka_server_brokertopicmetrics_bytesout_total"@.len());
            assert("kafka_controller_KafkaController_GlobalTopicCount"@.len() != "kafka_server_brokertopicmetrics_messagesin_total"@.len());
    }
}

/// A consumer-group count sample (Redpanda or Kafka) sets the number of
/// consumer groups to its value and changes nothing else.
pub proof fn law_broker_group_count(m: BrokerCounters, k: Seq<char>, v64: u64, v32: u32)
    requires
        k == "redpanda_kafka_consumer_groups"@ || k == "kafka_server_GroupMetadataManager_NumGroups"@,
    ensures
        broker_step(m, k, v64, v32).active_consumers == v32,
        broker_step(m, k, v64, v32) == (BrokerCounters { active_consumers: v32, ..m }),
{
    reveal_strlit("redpanda_cluster_partition_under_replicated_replicas");
    reveal_strlit("redpanda_under_replicated_partition");
    reveal_strlit("kafka_server_ReplicaManager_UnderReplicatedPartitions");
    reveal_strlit("kafka_server_replica_manager_underreplicatedpartitions");
    reveal_strlit("redpanda_kafka_max_consumer_lag");
    reveal_strlit("redpanda_kafka_consumer_group_lag");
    reveal_strlit("kafka_consumergroup_lag");
    reveal_strlit("kafka_consumer_group_lag");
    reveal_strlit("redpanda_kafka_request_bytes_total");
    reveal_strlit("kafka_server_brokertopicmetrics_bytesin_total");
    reveal_strlit("redpanda_kafka_request_tx_bytes_total");
    reveal_strlit("kafka_server_brokertopicmetrics_bytesout_total");
    reveal_strlit("kafka_server_brokertopicmetrics_messagesin_total");
    reveal_strlit("redpanda_cluster_topics");
    reveal_strlit("kafka_controller_KafkaController_GlobalTopicCount");
    reveal_strlit("redpanda_cluster_partitions");
    reveal_strlit("kafka_controller_KafkaController_GlobalPartitionCount");
    reveal_strlit("redpanda_kafka_consumer_groups");
    reveal_strlit("kafka_server_GroupMetadataManager_NumGroups");
    if k == "redpanda_kafka_consumer_groups"@ {
            assert("redpanda_kafka_consumer_groups"@.len() != "redpanda_cluster_partition_under_replicated_replicas"@.len());
            assert("redpanda_kafka_consumer_groups"@.len() != "redpanda_under_replicated_partition"@.len());
            assert("redpanda_kafka_consumer_groups"@.len() != "kafka_server_ReplicaManager_UnderReplicatedPartitions"@.len());
            assert("redpanda_kafka_consumer_groups"@.len() != "kafka_server_replica_manager_underreplicatedpartitions"@.len());
            assert("redpanda_kafka_consumer_groups"@.len() != "redpanda_kafka_max_consumer_lag"@.len());
            assert("redpanda_kafka_consumer_groups"@.len() != "redpanda_kafka_consumer_group_lag"@.len());
            assert("redpanda_kafka_consumer_groups"@.len() != "kafka_consumergroup_lag"@.len());
            assert("redpanda_kafka_consumer_groups"@.len() != "kafka_consumer_group_lag"@.len());
            assert("redpanda_kafka_consumer_groups"@.len() != "redpanda_kafka_request_bytes_total"@.len());
            assert("redpanda_kafka_consumer_groups"@.len() != "kafka_server_brokertopicmetrics_bytesin_total"@.len());
            assert("redpanda_kafka_consumer_groups"@.len() != "redpanda_kafka_request_tx_bytes_total"@.len());
            assert("redpanda_kafka_consumer_groups"@.len() != "kafka_server_brokertopicmetrics_bytesout_total"@.len());
            assert("redpanda_kafka_consumer_groups"@.len() != "kafka_server_brokertopicmetrics_messagesin_total"@.len());
            assert("redpanda_kafka_consumer_groups"@.len() != "redpanda_cluster_topics"@.len());
            assert("redpanda_kafka_consumer_groups"@.len() != "kafka_controller_KafkaController_GlobalTopicCount"@.len());
            assert("redpanda_kafka_consumer_groups"@.len() != "redpanda_cluster_partitions"@.len());
            assert("redpanda_kafka_consumer_groups"@.len() != "kafka_controller_KafkaController_GlobalPartitionCount"@.len());
    }
    if k == "kafka_server_GroupMetadataManager_NumGroups"@ {
            assert("kafka_server_GroupMetadataManager_NumGroups"@.len() != "redpanda_cluster_partition_under_replicated_replicas"@.len());
            assert("kafka_server_GroupMetadataManager_NumGroups"@.len() != "redpanda_under_replicated_partition"@.len());
            assert("kafka_server_GroupMetadataManager_NumGroups"@.len() != "kafka_server_ReplicaManager_UnderReplicatedPartitions"@.len());
            assert("kafka_server_GroupMetadataManager_NumGroups"@.len() != "kafka_server_replica_manager_underreplicatedpartitions"@.len());
            assert("kafka_server_GroupMetadataManager_NumGroups"@.len() != "redpanda_kafka_max_consumer_lag"@.len());
            assert("kafka_server_GroupMetadataManager_NumGroups"@.len() != "redpanda_kafka_consumer_group_lag"@.len());
            assert("kafka_server_GroupMetadataManager_NumGroups"@.len() != "kafka_consumergroup_lag"@.len());
            assert("kafka_server_GroupMetadataManager_NumGroups"@.len() != "kafka_consumer_group_lag"@.len());
            assert("kafka_server_GroupMetadataManager_NumGroups"@.len() != "redpanda_kafka_request_bytes_total"@.len());
            assert("kafka_server_GroupMetadataManager_NumGroups"@.len() != "kafka_server_brokertopicmetrics_bytesin_total"@.len());
            assert("kafka_server_GroupMetadataManager_NumGroups"@.len() != "redpanda_kafka_request_tx_bytes_total"@.len());
            assert("kafka_server_GroupMetadataManager_NumGroups"@.len() != "kafka_server_brokertopicmetrics_bytesout_total"@.len());
            assert("kafka_server_GroupMetadataManager_NumGroups"@.len() != "kafka_server_brokertopicmetrics_messagesin_total"@.len());
            assert("kafka_server_GroupMetadataManager_NumGroups"@.len() != "redpanda_cluster_topics"@.len());
            assert("kafka_server_GroupMetadataManager_NumGroups"@.len() != "kafka_controller_KafkaController_GlobalTopicCount"@.len());
            assert("kafka_server_GroupMetadataManager_NumGroups"@.len() != "redpanda_cluster_partitions"@.len());
            assert("kafka_server_GroupMetadataManager_NumGroups"@.len() != "kafka_controller_KafkaController_GlobalPartitionCount"@.len());
    }
}

/// An under-replicated-partitions sample sets that count to its value and
/// changes nothing else.
pub proof fn law_broker_under_replicated(m: BrokerCounters, k: Seq<char>, v64: u64, v32: u32)
    requires
        k == "redpanda_cluster_partition_under_replicated_replicas"@ || k == "redpanda_under_replicated_partition"@ || k == "kafka_server_ReplicaManager_UnderReplicatedPartitions"@ || k == "kafka_server_replica_manager_underreplicatedpartitions"@,
    ensures
        broker_step(m, k, v64, v32).under_replicated_partitions == v32,
        broker_step(m, k, v64, v32) == (BrokerCounters { under_replicated_partitions: v32, ..m }),
{
    reveal_strlit("redpanda_cluster_partition_under_replicated_replicas");
    reveal_strlit("redpanda_under_replicated_partition");
    reveal_strlit("kafka_server_ReplicaManager_UnderReplicatedPartitions");
    reveal_strlit("kafka_server_replica_manager_underreplicatedpartitions");
    reveal_strlit("redpanda_kafka_max_consumer_lag");
    reveal_strlit("redpanda_kafka_consumer_group_lag");
    reveal_strlit("kafka_consumergroup_lag");
    reveal_strlit("kafka_consumer_group_lag");
    reveal_strlit("redpanda_kafka_request_bytes_total");
    reveal_strlit("kafka_server_brokertopicmetrics_bytesin_total");
    reveal_strlit("redpanda_kafka_request_tx_bytes_total");
    reveal_strlit("kafka_server_brokertopicmetrics_bytesout_total");
    reveal_strlit("kafka_server_brokertopicmetrics_messagesin_total");
    reveal_strlit("redpanda_cluster_topics");
    reveal_strlit("kafka_controller_KafkaController_GlobalTopicCount");
    reveal_strlit("redpanda_cluster_partitions");
    reveal_strlit("kafka_controller_KafkaController_GlobalPartitionCount");
    reveal_strlit("redpanda_kafka_consumer_groups");
    reveal_strlit("kafka_server_GroupMetadataManager_NumGroups");
    if k == "redpanda_cluster_partition_under_replicated_replicas"@ {

    }
    if k == "redpanda_under_replicated_partition"@ {

    }
    if k == "kafka_server_ReplicaManager_UnderReplicatedPartitions"@ {

    }
    if k == "kafka_server_replica_manager_underreplicatedpartitions"@ {

    }
}

/// A consumer-lag sample raises the recorded lag to its value when larger:
/// the lag kept is the largest seen, and nothing else changes.
pub proof fn law_broker_consumer_lag(m: BrokerCounters, k: Seq<char>, v64: u64, v32: u32)
    requires
        k == "redpanda_kafka_max_consumer_lag"@ || k == "redpanda_kafka_consumer_group_lag"@ || k == "kafka_consumergroup_lag"@ || k == "kafka_consumer_group_lag"@,
    ensures
        broker_step(m, k, v64, v32).consumer_lag == (if v64 > m.consumer_lag { v64 } else { m.consumer_lag }),
        broker_step(m, k, v64, v32).consumer_lag >= m.consumer_lag,
        broker_step(m, k, v64, v32).consumer_lag >= v64,
        broker_step(m, k, v64, v32) == (BrokerCounters { consumer_lag: broker_step(m, k, v64, v32).consumer_lag, ..m }),
{
    reveal_strlit("redpanda_cluster_partition_under_replicated_replicas");
    reveal_strlit("redpanda_under_replicated_partition");
    reveal_strlit("kafka_server_ReplicaManager_UnderReplicatedPartitions");
    reveal_strlit("kafka_server_replica_manager_underreplicatedpartitions");
    reveal_strlit("redpanda_kafka_max_consumer_lag");
    reveal_strlit("redpanda_kafka_consumer_group_lag");
    reveal_strlit("kafka_consumergroup_lag");
    reveal_strlit("kafka_consumer_group_lag");
    reveal_strlit("redpanda_kafka_request_bytes_total");
    reveal_strlit("kafka_server_brokertopicmetrics_bytesin_total");
    reveal_strlit("redpanda_kafka_request_tx_bytes_total");
    reveal_strlit("kafka_server_brokertopicmetrics_bytesout_total");
    reveal_strlit("kafka_server_brokertopicmetrics_messagesin_total");
    reveal_strlit("redpanda_cluster_topics");
    reveal_strlit("kafka_controller_KafkaController_GlobalTopicCount");
    reveal_strlit("redpanda_cluster_partitions");
    reveal_strlit("kafka_controller_KafkaController_GlobalPartitionCount");
    reveal_strlit("redpanda_kafka_consumer_groups");
    reveal_strlit("kafka_server_GroupMetadataManager_NumGroups");
    if k == "redpanda_kafka_max_consumer_lag"@ {
            assert("redpanda_kafka_max_consumer_lag"@.len() != "redpanda_cluster_partition_under_replicated_replicas"@.len());
            assert("redpanda_kafka_max_consumer_lag"@.len() != "redpanda_under_replicated_partition"@.len());
            assert("redpanda_kafka_max_consumer_lag"@.len() != "kafka_server_ReplicaManager_UnderReplicatedPartitions"@.len());
            assert("redpanda_kafka_max_consumer_lag"@.len() != "kafka_server_replica_manager_underreplicatedpartitions"@.len());
    }
    if k == "redpanda_kafka_consumer_group_lag"@ {
            assert("redpanda_kafka_consumer_group_lag"@.len() != "redpanda_cluster_partition_under_replicated_replicas"@.len());
            assert("redpanda_kafka_consumer_group_lag"@.len() != "redpanda_under_replicated_partition"@.len());
            assert("redpanda_kafka_consumer_group_lag"@.len() != "kafka_server_ReplicaManager_UnderReplicatedPartitions"@.len());
            assert("redpanda_kafka_consumer_group_lag"@.len() != "kafka_server_replica_manager_underreplicatedpartitions"@.len());
    }
    if k == "kafka_consumergroup_lag"@ {
            assert("kafka_consumergroup_lag"@.len() != "redpanda_cluster_partition_under_replicated_replicas"@.len());
            assert("kafka_consumergroup_lag"@.len() != "redpanda_under_replicated_partition"@.len());
            assert("kafka_consumergroup_lag"@.len() != "kafka_server_ReplicaManager_UnderReplicatedPartitions"@.len());
            assert("kafka_consumergroup_lag"@.len() != "kafka_server_replica_manager_underreplicatedpartitions"@.len());
    }
    if k == "kafka_consumer_group_lag"@ {
            assert("kafka_consumer_group_lag"@.len() != "redpanda_cluster_partition_under_replicated_replicas"@.len());
            assert("kafka_consumer_group_lag"@.len() != "redpanda_under_replicated_partition"@.len());
            assert("kafka_consumer_group_lag"@.len() != "kafka_server_ReplicaManager_UnderReplicatedPartitions"@.len());
            assert("kafka_consumer_group_lag"@.len() != "kafka_server_replica_manager_underreplicatedpartitions"@.len());
    }
}

/// A received-bytes sample sets the byte counter to its value and changes
/// nothing else.
pub proof fn law_broker_bytes_in(m: BrokerCounters, k: Seq<char>, v64: u64, v32: u32)
    requires
        k == "redpanda_kafka_request_bytes_total"@ || k == "kafka_server_brokertopicmetrics_bytesin_total"@,
    ensures
        broker_step(m, k, v64, v32) == (BrokerCounters { raw_bytes_total: v64, ..m }),
{
    reveal_strlit("redpanda_cluster_partition_under_replicated_replicas");
    reveal_strlit("redpanda_under_replicated_partition");
    reveal_strlit("kafka_server_ReplicaManager_UnderReplicatedPartitions");
    reveal_strlit("kafka_server_replica_manager_underreplicatedpartitions");
    reveal_strlit("redpanda_kafka_max_consumer_lag");
    reveal_strlit("redpanda_kafka_consumer_group_lag");
    reveal_strlit("kafka_consumergroup_lag");
    reveal_strlit("kafka_consumer_group_lag");
    reveal_strlit("redpanda_kafka_request_bytes_total");
    reveal_strlit("kafka_server_brokertopicmetrics_bytesin_total");
    reveal_strlit("redpanda_kafka_request_tx_bytes_total");
    reveal_strlit("kafka_server_brokertopicmetrics_bytesout_total");
    reveal_strlit("kafka_server_brokertopicmetrics_messagesin_total");
    reveal_strlit("redpanda_cluster_topics");
    reveal_strlit("kafka_controller_KafkaController_GlobalTopicCount");
    reveal_strlit("redpanda_cluster_partitions");
    reveal_strlit("kafka_controller_KafkaController_GlobalPartitionCount");
    reveal_strlit("redpanda_kafka_consumer_groups");
    reveal_strlit("kafka_server_GroupMetadataManager_NumGroups");
    if k == "redpanda_kafka_request_bytes_total"@ {
            assert("redpanda_kafka_request_bytes_total"@.len() != "redpanda_cluster_partition_under_replicated_replicas"@.len());
            assert("redpanda_kafka_request_bytes_total"@.len() != "redpanda_under_replicated_partition"@.len());
            assert("redpanda_kafka_request_bytes_total"@.len() != "kafka_server_ReplicaManager_UnderReplicatedPartitions"@.len());
            assert("redpanda_kafka_request_bytes_total"@.len() != "kafka_server_replica_manager_underreplicatedpartitions"@.len());
            assert("redpanda_kafka_request_bytes_total"@.len() != "redpanda_kafka_max_consumer_lag"@.len());
            assert("redpanda_kafka_request_bytes_total"@.len() != "redpanda_kafka_consumer_group_lag"@.len());
            assert("redpanda_kafka_request_bytes_total"@.len() != "kafka_consumergroup_lag"@.len());
            assert("redpanda_kafka_request_bytes_total"@.len() != "kafka_consumer_group_lag"@.len());
    }
    if k == "kafka_server_brokertopicmetrics_bytesin_total"@ {
            assert("kafka_server_brokertopicmetrics_bytesin_total"@.len() != "redpanda_cluster_partition_under_replicated_replicas"@.len());
            assert("kafka_server_brokertopicmetrics_bytesin_total"@.len() != "redpanda_under_replicated_partition"@.len());
            assert("kafka_server_brokertopicmetrics_bytesin_total"@.len() != "kafka_server_ReplicaManager_UnderReplicatedPartitions"@.len());
            assert("kafka_server_brokertopicmetrics_bytesin_total"@.len() != "kafka_server_replica_manager_underreplicatedpartitions"@.len());
            assert("kafka_server_brokertopicmetrics_bytesin_total"@.len() != "redpanda_kafka_max_consumer_lag"@.len());
            assert("kafka_server_brokertopicmetrics_bytesin_total"@.len() != "redpanda_kafka_consumer_group_lag"@.len());
            assert("kafka_server_brokertopicmetrics_bytesin_total"@.len() != "kafka_consumergroup_lag"@.len());
            assert("kafka_server_brokertopicmetrics_bytesin_total"@.len() != "kafka_consumer_group_lag"@.len());
    }
}

/// A sent-bytes sample sets the byte counter only while none was read (it
/// is 0), and otherwise changes nothing.
pub proof fn law_broker_bytes_out(m: BrokerCounters, k: Seq<char>, v64: u64, v32: u32)
    requires
        k == "redpanda_kafka_request_tx_bytes_total"@ || k == "kafka_server_brokertopicmetrics_bytesout_total"@,
    ensures
        m.raw_bytes_total == 0 ==> broker_step(m, k, v64, v32) == (BrokerCounters { raw_bytes_total: v64, ..m }),
        m.raw_bytes_total != 0 ==> broker_step(m, k, v64, v32) == m,
{
    reveal_strlit("redpanda_cluster_partition_under_replicated_replicas");
    reveal_strlit("redpanda_under_replicated_partition");
    reveal_strlit("kafka_server_ReplicaManager_UnderReplicatedPartitions");
    reveal_strlit("kafka_server_replica_manager_underreplicatedpartitions");
    reveal_strlit("redpanda_kafka_max_consumer_lag");
    reveal_strlit("redpanda_kafka_consumer_group_lag");
    reveal_strlit("kafka_consumergroup_lag");
    reveal_strlit("kafka_consumer_group_lag");
    reveal_strlit("redpanda_kafka_request_bytes_total");
    reveal_strlit("kafka_server_brokertopicmetrics_bytesin_total");
    reveal_strlit("redpanda_kafka_request_tx_bytes_total");
    reveal_strlit("kafka_server_brokertopicmetrics_bytesout_total");
    reveal_strlit("kafka_server_brokertopicmetrics_messagesin_total");
    reveal_strlit("redpanda_cluster_topics");
    reveal_strlit("kafka_controller_KafkaController_GlobalTopicCount");
    reveal_strlit("redpanda_cluster_partitions");
    reveal_strlit("kafka_controller_KafkaController_GlobalPartitionCount");
    reveal_strlit("redpanda_kafka_consumer_groups");
    reveal_strlit("kafka_server_GroupMetadataManager_NumGroups");
    if k == "redpanda_kafka_request_tx_bytes_total"@ {
            assert("redpanda_kafka_request_tx_bytes_total"@.len() != "redpanda_cluster_partition_under_replicated_replicas"@.len());
            assert("redpanda_kafka_request_tx_bytes_total"@.len() != "redpanda_under_replicated_partition"@.len());
            assert("redpanda_kafka_request_tx_bytes_total"@.len() != "kafka_server_ReplicaManager_UnderReplicatedPartitions"@.len());
            assert("redpanda_kafka_request_tx_bytes_total"@.len() != "kafka_server_replica_manager_underreplicatedpartitions"@.len());
            assert("redpanda_kafka_request_tx_bytes_total"@.len() != "redpanda_kafka_max_consumer_lag"@.len());
            assert("redpanda_kafka_request_tx_bytes_total"@.len() != "redpanda_kafka_consumer_group_lag"@.len());
            assert("redpanda_kafka_request_tx_bytes_total"@.len() != "kafka_consumergroup_lag"@.len());
            assert("redpanda_kafka_request_tx_bytes_total"@.len() != "kafka_consumer_group_lag"@.len());
            assert("redpanda_kafka_request_tx_bytes_total"@.len() != "redpanda_kafka_request_bytes_total"@.len());
            assert("redpanda_kafka_request_tx_bytes_total"@.len() != "kafka_server_brokertopicmetrics_bytesin_total"@.len());
    }
    if k == "kafka_server_brokertopicmetrics_bytesout_total"@ {
            assert("kafka_server_brokertopicmetrics_bytesout_total"@.len() != "redpanda_cluster_partition_under_replicated_replicas"@.len());
            assert("kafka_server_brokertopicmetrics_bytesout_total"@.len() != "redpanda_under_replicated_partition"@.len());
            assert("kafka_server_brokertopicmetrics_bytesout_total"@.len() != "kafka_server_ReplicaManager_UnderReplicatedPartitions"@.len());
            assert("kafka_server_brokertopicmetrics_bytesout_total"@.len() != "kafka_server_replica_manager_underreplicatedpartitions"@.len());
            assert("kafka_server_brokertopicmetrics_bytesout_total"@.len() != "redpanda_kafka_max_consumer_lag"@.len());
            assert("kafka_server_brokertopicmetrics_bytesout_total"@.len() != "redpanda_kafka_consumer_group_lag"@.len());
            assert("kafka_server_brokertopicmetrics_bytesout_total"@.len() != "kafka_consumergroup_lag"@.len());
            assert("kafka_server_brokertopicmetrics_bytesout_total"@.len() != "kafka_consumer_group_lag"@.len());
            assert("kafka_server_brokertopicmetrics_bytesout_total"@.len() != "redpanda_kafka_request_bytes_total"@.len());
            assert("kafka_server_brokertopicmetrics_bytesout_total"@.len() != "kafka_server_brokertopicmetrics_bytesin_total"@.len());
    }
}

/// A messages-in sample sets the message counter to its value and changes
/// nothing else.
pub proof fn law_broker_messages_in(m: BrokerCounters, k: Seq<char>, v64: u64, v32: u32)
    requires
        k == "kafka_server_brokertopicmetrics_messagesin_total"@,
    ensures
        broker_step(m, k, v64, v32) == (BrokerCounters { raw_messages_total: v64, ..m }),
{
    reveal_strlit("redpanda_cluster_partition_under_replicated_replicas");
    reveal_strlit("redpanda_under_replicated_partition");
    reveal_strlit("kafka_server_ReplicaManager_UnderReplicatedPartitions");
    reveal_strlit("kafka_server_replica_manager_underreplicatedpartitions");
    reveal_strlit("redpanda_kafka_max_consumer_lag");
    reveal_strlit("redpanda_kafka_consumer_group_lag");
    reveal_strlit("kafka_consumergroup_lag");
    reveal_strlit("kafka_consumer_group_lag");
    reveal_strlit("redpanda_kafka_request_bytes_total");
    reveal_strlit("kafka_server_brokertopicmetrics_bytesin_total");
    reveal_strlit("redpanda_kafka_request_tx_bytes_total");
    reveal_strlit("kafka_server_brokertopicmetrics_bytesout_total");
    reveal_strlit("kafka_server_brokertopicmetrics_messagesin_total");
    reveal_strlit("redpanda_cluster_topics");
    reveal_strlit("kafka_controller_KafkaController_GlobalTopicCount");
    reveal_strlit("redpanda_cluster_partitions");
    reveal_strlit("kafka_controller_KafkaController_GlobalPartitionCount");
    reveal_strlit("redpanda_kafka_consumer_groups");
    reveal_strlit("kafka_server_GroupMetadataManager_NumGroups");
    if k == "kafka_server_brokertopicmetrics_messagesin_total"@ {
            assert("kafka_server_brokertopicmetrics_messagesin_total"@.len() != "redpanda_cluster_partition_under_replicated_replicas"@.len());
            assert("kafka_server_brokertopicmetrics_messagesin_total"@.len() != "redpanda_under_replicated_partition"@.len());
            assert("kafka_server_brokertopicmetrics_messagesin_total"@.len() != "kafka_server_ReplicaManager_UnderReplicatedPartitions"@.len());
            assert("kafka_server_brokertopicmetrics_messagesin_total"@.len() != "kafka_server_replica_manager_underreplicatedpartitions"@.len());
            assert("kafka_server_brokertopicmetrics_messagesin_total"@.len() != "redpanda_kafka_max_consumer_lag"@.len());
            assert("kafka_server_brokertopicmetrics_messagesin_total"@.len() != "redpanda_kafka_consumer_group_lag"@.len());
            assert("kafka_server_brokertopicmetrics_messagesin_total"@.len() != "kafka_consumergroup_lag"@.len());
            assert("kafka_server_brokertopicmetrics_messagesin_total"@.len() != "kafka_consumer_group_lag"@.len());
            assert("kafka_server_brokertopicmetrics_messagesin_total"@.len() != "redpanda_kafka_request_bytes_total"@.len());
            assert("kafka_server_brokertopicmetrics_messagesin_total"@.len() != "kafka_server_brokertopicmetrics_bytesin_total"@.len());
            assert("kafka_server_brokertopicmetrics_messagesin_total"@.len() != "redpanda_kafka_request_tx_bytes_total"@.len());
            assert("kafka_server_brokertopicmetrics_messagesin_total"@.len() != "kafka_server_brokertopicmetrics_bytesout_total"@.len());
    }
}

/// A sample under any other name changes nothing.
pub proof fn law_broker_other_key(m: BrokerCounters, k: Seq<char>, v64: u64, v32: u32)
    requires
        !(k == "redpanda_cluster_partition_under_replicated_replicas"@ || k == "redpanda_under_replicated_partition"@ || k == "kafka_server_ReplicaManager_UnderReplicatedPartitions"@ || k == "kafka_server_replica_manager_underreplicatedpartitions"@ || k == "redpanda_kafka_max_consumer_lag"@ || k == "redpanda_kafka_consumer_group_lag"@ || k == "kafka_consumergroup_lag"@ || k == "kafka_consumer_group_lag"@ || k == "redpanda_kafka_request_bytes_total"@ || k == "kafka_server_brokertopicmetrics_bytesin_total"@ || k == "redpanda_kafka_request_tx_bytes_total"@ || k == "kafka_server_brokertopicmetrics_bytesout_total"@ || k == "kafka_server_brokertopicmetrics_messagesin_total"@ || k == "redpanda_cluster_topics"@ || k == "kafka_controller_KafkaController_GlobalTopicCount"@ || k == "redpanda_cluster_partitions"@ || k == "kafka_controller_KafkaController_GlobalPartitionCount"@ || k == "redpanda_kafka_consumer_groups"@ || k == "kafka_server_GroupMetadataManager_NumGroups"@),
    ensures
        broker_step(m, k, v64, v32) == m,
{
}

/// Applying a page of one sample gives that sample's effect on the starting
/// counters; each further sample acts on what the earlier ones left.
pub proof fn law_broker_fold_steps(m: BrokerCounters, ss: Seq<BrokerSample>, s: BrokerSample)
    ensures
        broker_fold(m, seq![s]) == broker_step(m, s.key@, s.as_u64, s.as_u32),
        broker_fold(m, ss.push(s)) == broker_step(broker_fold(m, ss), s.key@, s.as_u64, s.as_u32),
        broker_fold(m, Seq::empty()) == m,
{
    assert(seq![s].drop_last() =~= Seq::<BrokerSample>::empty());
    assert(broker_fold(m, Seq::<BrokerSample>::empty()) == m);
    assert(ss.push(s).drop_last() =~= ss);
}

} // verus!
