use vstd::prelude::*;
use crate::error::NodeError;

verus! {

/// The settings a node is built with; durations are whole seconds.
#[derive(Debug, Clone, Copy, PartialEq, Eq, Structural)]
pub struct NodeConfig {
    pub ping_interval_secs: u64,
    pub mesh_low: usize,
    pub mesh_high: usize,
    pub message_dedup_window_secs: u64,
    pub dht_query_timeout_secs: u64,
    pub dht_replication_factor: usize,
    pub idle_connection_timeout_secs: u64,
    pub connection_upgrade_timeout_secs: u64,
}

/// Whether every setting is in range: each duration positive, the mesh
/// bounds ordered, with a lower bound of at least two (the publish/subscribe
/// layer keeps two outbound peers in its mesh) and an upper bound of at least
/// four (its mesh target must hold twice those two), and a positive
/// replication factor.
pub open spec fn config_in_range(c: NodeConfig) -> bool {
    &&& c.ping_interval_secs > 0
    &&& 2 <= c.mesh_low <= c.mesh_high
    &&& 4 <= c.mesh_high
    &&& c.message_dedup_window_secs > 0
    &&& c.dht_query_timeout_secs > 0
    &&& c.dht_replication_factor > 0
    &&& c.idle_connection_timeout_secs > 0
    &&& c.connection_upgrade_timeout_secs > 0
}

impl NodeConfig {
    /// The defaults: a ping every thirty seconds, mesh bounds five to twelve,
    /// a sixty-second duplicate window, a sixty-second hash-table query
    /// timeout with replication factor twenty, connections closed after
    /// sixty idle seconds, and twenty seconds to upgrade a connection.
    pub fn standard() -> (r: NodeConfig)
        ensures
            config_in_range(r),
            r == (NodeConfig {
                ping_interval_secs: 30,
                mesh_low: 5,
                mesh_high: 12,
                message_dedup_window_secs: 60,
                dht_query_timeout_secs: 60,
                dht_replication_factor: 20,
                idle_connection_timeout_secs: 60,
                connection_upgrade_timeout_secs: 20,
            }),
    {
        NodeConfig {
            ping_interval_secs: 30,
            mesh_low: 5,
            mesh_high: 12,
            message_dedup_window_secs: 60,
            dht_query_timeout_secs: 60,
            dht_replication_factor: 20,
            idle_connection_timeout_secs: 60,
            connection_upgrade_timeout_secs: 20,
        }
    }

    /// The mesh size aimed for: six, brought within the mesh bounds; at least
    /// four for a configuration in range.
    pub fn mesh_target(&self) -> (r: usize)
        requires
            self.mesh_low <= self.mesh_high,
        ensures
            self.mesh_low <= r <= self.mesh_high,
            config_in_range(*self) ==> 4 <= r,
            r == if 6 < self.mesh_low {
                self.mesh_low
            } else if 6 > self.mesh_high {
                self.mesh_high
            } else {
                6
            },
    {
        if 6 < self.mesh_low {
            self.mesh_low
        } else if 6 > self.mesh_high {
            self.mesh_high
        } else {
            6
        }
    }

    /// Accepts a configuration whose settings are all in range; any other is
    /// `InvalidConfig`.
    pub fn validate(&self) -> (r: Result<(), NodeError>)
        ensures
            r is Ok <==> config_in_range(*self),
            r is Err ==> r == Err::<(), NodeError>(NodeError::InvalidConfig),
    {
        if self.ping_interval_secs > 0 && 2 <= self.mesh_low && self.mesh_low <= self.mesh_high
            && 4 <= self.mesh_high
            && self.message_dedup_window_secs > 0 && self.dht_query_timeout_secs > 0
            && self.dht_replication_factor > 0 && self.idle_connection_timeout_secs > 0
            && self.connection_upgrade_timeout_secs > 0 {
            Ok(())
        } else {
            Err(NodeError::InvalidConfig)
        }
    }
}

} // verus!
