//! Settings of the write-ahead log on Kafka.

use vstd::prelude::*;

verus! {

/// A span of time: whole seconds and the nanoseconds beyond them.
#[derive(Debug, Clone, Copy, PartialEq, Eq, Hash, Structural)]
pub struct Duration {
    secs: u64,
    nanos: u32,
}

impl View for Duration {
    type V = nat;

    /// The span in nanoseconds.
    closed spec fn view(&self) -> nat {
        (self.secs * 1_000_000_000 + self.nanos) as nat
    }
}

impl Duration {
    #[verifier::type_invariant]
    spec fn inv(self) -> bool {
        self.nanos < 1_000_000_000
    }

    /// A span of `secs` seconds.
    pub fn from_secs(secs: u64) -> (r: Self)
        ensures
            r@ == secs * 1_000_000_000,
    {
        Duration { secs, nanos: 0 }
    }

    /// A span of `millis` milliseconds.
    pub fn from_millis(millis: u64) -> (r: Self)
        ensures
            r@ == millis * 1_000_000,
    {
        let r = Duration { secs: millis / 1000, nanos: ((millis % 1000) * 1_000_000) as u32 };
        assert(r@ == millis * 1_000_000) by {
            assert(millis == (millis / 1000) * 1000 + millis % 1000);
        }
        r
    }

    /// The whole seconds of the span.
    pub fn as_secs(&self) -> (r: u64)
        ensures
            r == self@ / 1_000_000_000,
    {
        proof {
            use_type_invariant(self);
        }
        self.secs
    }

    /// The nanoseconds of the span beyond its whole seconds.
    pub fn subsec_nanos(&self) -> (r: u32)
        ensures
            r == self@ % 1_000_000_000,
    {
        proof {
            use_type_invariant(self);
        }
        self.nanos
    }

    /// The whole milliseconds of the span.
    pub fn as_millis(&self) -> (r: u128)
        ensures
            r == self@ / 1_000_000,
    {
        proof {
            use_type_invariant(self);
        }
        let r = self.secs as u128 * 1000 + (self.nanos / 1_000_000) as u128;
        assert(r == self@ / 1_000_000) by {
            let n = self.nanos as int;
            let s = self.secs as int;
            assert(n == (n / 1_000_000) * 1_000_000 + n % 1_000_000);
            assert(s * 1_000_000_000 + n == (s * 1000 + n / 1_000_000) * 1_000_000 + n
                % 1_000_000);
        }
        r
    }
}

/// How a topic is chosen for a region.
#[derive(Debug, Clone, Copy, PartialEq, Eq, Hash, Structural)]
pub enum TopicSelectorType {
    /// One topic after another, in turn.
    RoundRobin,
}

/// Settings of the write-ahead log on Kafka.
#[derive(Debug, Clone, PartialEq)]
pub struct KafkaConfig {
    /// The broker endpoints of the Kafka cluster.
    pub broker_endpoints: Vec<String>,
    /// Number of topics to create at the start.
    pub num_topics: usize,
    /// How a topic is chosen for a region.
    pub selector_type: TopicSelectorType,
    /// What the name of each topic begins with.
    pub topic_name_prefix: String,
    /// Number of partitions of each topic.
    pub num_partitions: i32,
    /// The replication factor of each topic.
    pub replication_factor: i16,
    /// The time after which the creation of a topic is given up.
    pub create_topic_timeout: Duration,
    /// The first backoff of a Kafka client.
    pub backoff_init: Duration,
    /// The longest backoff of a Kafka client.
    pub backoff_max: Duration,
    /// The rate at which the backoff grows: the next is this many times the
    /// last.
    pub backoff_base: u32,
    /// The total time of waiting after which a client stops reconnecting;
    /// with `None` it never stops.
    pub backoff_deadline: Option<Duration>,
}

impl Default for KafkaConfig {
    fn default() -> (r: Self)
        ensures
            r.broker_endpoints@.len() == 1,
            r.broker_endpoints@[0]@ == "127.0.0.1:9090"@,
            r.num_topics == 64,
            r.selector_type == TopicSelectorType::RoundRobin,
            r.topic_name_prefix@ == "greptimedb_wal_topic"@,
            r.num_partitions == 1,
            r.replication_factor == 3,
            r.create_topic_timeout@ == 30 * 1_000_000_000,
            r.backoff_init@ == 500 * 1_000_000,
            r.backoff_max@ == 10 * 1_000_000_000,
            r.backoff_base == 2,
            r.backoff_deadline matches Some(d) && d@ == 300 * 1_000_000_000,
    {
        Self {
            broker_endpoints: vec!["127.0.0.1:9090".to_owned()],
            num_topics: 64,
            selector_type: TopicSelectorType::RoundRobin,
            topic_name_prefix: "greptimedb_wal_topic".to_owned(),
            num_partitions: 1,
            replication_factor: 3,
            create_topic_timeout: Duration::from_secs(30),
            backoff_init: Duration::from_millis(500),
            backoff_max: Duration::from_secs(10),
            backoff_base: 2,
            // 5 minutes
            backoff_deadline: Some(Duration::from_secs(60 * 5)),
        }
    }
}

} // verus!
