//! Configuration of the discovery node: every tunable knob, with a
//! builder that starts from the defaults. All times are in milliseconds.

use vstd::prelude::*;
use crate::filter::{PermitBanList, RateLimiter, RateLimiterBuilder, RateQuota};
use crate::record::Ipv4Net;
use crate::table::{AcceptAll, TableFilter, MAX_NODES_PER_BUCKET};

verus! {

/// The sockets the node listens on, as plain address values. An IPv6
/// address is held as its high and low 64-bit halves.
#[derive(Clone, Copy, PartialEq, Eq, Structural, Debug)]
pub enum ListenConfig {
    Ipv4 { ip: u32, port: u16 },
    Ipv6 { ip_hi: u64, ip_lo: u64, port: u16 },
    DualStack { ipv4: u32, ipv4_port: u16, ipv6_hi: u64, ipv6_lo: u64, ipv6_port: u16 },
}

/// Configuration parameters that define the performance of the discovery
/// network.
#[derive(Clone, Debug)]
pub struct Config<F: TableFilter> {
    /// Whether the inbound packet filter runs at all.
    pub enable_packet_filter: bool,
    /// How long to wait for each UDP request, in milliseconds.
    pub request_timeout: u64,
    /// How long external-address votes are remembered, in milliseconds.
    pub vote_duration: u64,
    /// After how long a queried peer is marked unresponsive, in milliseconds.
    pub query_peer_timeout: u64,
    /// The deadline for an entire query, in milliseconds.
    pub query_timeout: u64,
    /// How many times a timed-out request is resent.
    pub request_retries: u8,
    /// After how much inactivity a session is evicted, in milliseconds.
    pub session_timeout: u64,
    /// The largest number of sessions kept at once.
    pub session_cache_capacity: usize,
    /// Whether peers' votes may update the local record's address.
    pub enr_update: bool,
    /// The largest number of peers returned to one lookup request.
    pub max_nodes_response: usize,
    /// Distinct agreeing peers needed before the local record is updated.
    pub enr_peer_update_min: usize,
    /// How many peers one query asks in parallel.
    pub query_parallelism: usize,
    /// Whether the table limits peers per /24-equivalent subnet.
    pub ip_limit: bool,
    /// The largest number of incoming-sourced peers per bucket.
    pub incoming_bucket_limit: usize,
    /// The acceptance predicate consulted before a record enters the table.
    pub table_filter: F,
    /// Time between connectivity pings, in milliseconds.
    pub ping_interval: u64,
    /// Whether every discovered peer is reported on the event stream.
    pub report_discovered_peers: bool,
    /// Inbound request quotas; `None` leaves requests unfiltered.
    pub filter_rate_limiter: Option<RateLimiter>,
    /// Node identities allowed per IP before the IP is banned.
    pub filter_max_nodes_per_ip: Option<usize>,
    /// Banned nodes allowed per IP before the IP itself is banned.
    pub filter_max_bans_per_ip: Option<usize>,
    /// IPs and node identities to always admit or always drop.
    pub permit_ban_list: PermitBanList,
    /// How long a ban lasts, in milliseconds; `None` bans forever.
    pub ban_duration: Option<u64>,
    /// How long to listen for an incoming connection after advertising an address before retracting it; `None` always advertises.
    pub auto_nat_listen_duration: Option<u64>,
    /// The sockets the node listens on.
    pub listen_config: ListenConfig,
    /// Source addresses in this range may advertise a differing address.
    pub allowed_cidr: Option<Ipv4Net>,
}

#[derive(Clone, Debug)]
pub struct ConfigBuilder<F: TableFilter> {
    pub config: Config<F>,
}

impl ConfigBuilder<AcceptAll> {
    /// A builder holding every default.
    pub fn new(listen_config: ListenConfig) -> (b: ConfigBuilder<AcceptAll>)
        ensures
            b.config.enable_packet_filter == false,
            b.config.request_timeout == 1000,
            b.config.vote_duration == 120_000,
            b.config.query_peer_timeout == 2000,
            b.config.query_timeout == 60_000,
            b.config.request_retries == 1,
            b.config.session_timeout == 86_400_000,
            b.config.session_cache_capacity == 1000,
            b.config.enr_update == true,
            b.config.max_nodes_response == 16,
            b.config.enr_peer_update_min == 10,
            b.config.query_parallelism == 3,
            b.config.ip_limit == false,
            b.config.incoming_bucket_limit == MAX_NODES_PER_BUCKET,
            b.config.table_filter == AcceptAll,
            b.config.ping_interval == 300_000,
            b.config.report_discovered_peers == true,
            b.config.filter_rate_limiter matches Some(l) && l.total_quota == (RateQuota { limit: 10, window: 1000 }) && l.node_quota == Some(RateQuota { limit: 8, window: 1000 }) && l.ip_quota == Some(RateQuota { limit: 9, window: 1000 }),
            b.config.filter_max_nodes_per_ip == Some(10usize),
            b.config.filter_max_bans_per_ip == Some(5usize),
            b.config.permit_ban_list.permit_ips@.len() == 0 && b.config.permit_ban_list.permit_nodes@.len() == 0 && b.config.permit_ban_list.ban_ips@.len() == 0 && b.config.permit_ban_list.ban_nodes@.len() == 0,
            b.config.ban_duration == Some(3_600_000u64),
            b.config.auto_nat_listen_duration == Some(300_000u64),
            b.config.listen_config == listen_config,
            b.config.allowed_cidr == None::<Ipv4Net>,
    {
        // only consulted when the packet filter is enabled
        let built = RateLimiterBuilder::new().total_n_every(10, 1000).node_n_every(
            8,
            1000,
        ).ip_n_every(9, 1000).build();
        let filter_rate_limiter = match built {
            Ok(l) => Some(l),
            Err(_) => None,
        };
        let config = Config {
            enable_packet_filter: false,
            request_timeout: 1000,
            vote_duration: 120_000,
            query_peer_timeout: 2000,
            query_timeout: 60_000,
            request_retries: 1,
            session_timeout: 86_400_000,
            session_cache_capacity: 1000,
            enr_update: true,
            max_nodes_response: 16,
            enr_peer_update_min: 10,
            query_parallelism: 3,
            ip_limit: false,
            incoming_bucket_limit: MAX_NODES_PER_BUCKET,
            table_filter: AcceptAll,
            ping_interval: 300_000,
            report_discovered_peers: true,
            filter_rate_limiter: filter_rate_limiter,
            filter_max_nodes_per_ip: Some(10),
            filter_max_bans_per_ip: Some(5),
            permit_ban_list: PermitBanList::new(),
            ban_duration: Some(3_600_000),
            auto_nat_listen_duration: Some(300_000),
            listen_config: listen_config,
            allowed_cidr: None,
        };
        ConfigBuilder { config }
    }
}

impl<F: TableFilter> ConfigBuilder<F> {
    /// Turn the inbound packet filter on.
    pub fn enable_packet_filter(&mut self) -> (ret: &mut ConfigBuilder<F>)
        ensures
            *ret == (ConfigBuilder { config: Config { enable_packet_filter: true, ..old(self).config } }),
            *final(self) == *final(ret),
    {
        self.config.enable_packet_filter = true;
        self
    }

    /// How long to wait for each UDP request, in milliseconds.
    pub fn request_timeout(&mut self, timeout: u64) -> (ret: &mut ConfigBuilder<F>)
        ensures
            *ret == (ConfigBuilder { config: Config { request_timeout: timeout, ..old(self).config } }),
            *final(self) == *final(ret),
    {
        self.config.request_timeout = timeout;
        self
    }

    /// How long external-address votes are remembered, in milliseconds.
    pub fn vote_duration(&mut self, vote_duration: u64) -> (ret: &mut ConfigBuilder<F>)
        ensures
            *ret == (ConfigBuilder { config: Config { vote_duration: vote_duration, ..old(self).config } }),
            *final(self) == *final(ret),
    {
        self.config.vote_duration = vote_duration;
        self
    }

    /// After how long a queried peer is marked unresponsive, in milliseconds.
    pub fn query_peer_timeout(&mut self, timeout: u64) -> (ret: &mut ConfigBuilder<F>)
        ensures
            *ret == (ConfigBuilder { config: Config { query_peer_timeout: timeout, ..old(self).config } }),
            *final(self) == *final(ret),
    {
        self.config.query_peer_timeout = timeout;
        self
    }

    /// The deadline for an entire query, in milliseconds.
    pub fn query_timeout(&mut self, timeout: u64) -> (ret: &mut ConfigBuilder<F>)
        ensures
            *ret == (ConfigBuilder { config: Config { query_timeout: timeout, ..old(self).config } }),
            *final(self) == *final(ret),
    {
        self.config.query_timeout = timeout;
        self
    }

    /// How many times a timed-out request is resent.
    pub fn request_retries(&mut self, retries: u8) -> (ret: &mut ConfigBuilder<F>)
        ensures
            *ret == (ConfigBuilder { config: Config { request_retries: retries, ..old(self).config } }),
            *final(self) == *final(ret),
    {
        self.config.request_retries = retries;
        self
    }

    /// After how much inactivity a session is evicted, in milliseconds.
    pub fn session_timeout(&mut self, timeout: u64) -> (ret: &mut ConfigBuilder<F>)
        ensures
            *ret == (ConfigBuilder { config: Config { session_timeout: timeout, ..old(self).config } }),
            *final(self) == *final(ret),
    {
        self.config.session_timeout = timeout;
        self
    }

    /// The largest number of sessions kept at once.
    pub fn session_cache_capacity(&mut self, capacity: usize) -> (ret: &mut ConfigBuilder<F>)
        ensures
            *ret == (ConfigBuilder { config: Config { session_cache_capacity: capacity, ..old(self).config } }),
            *final(self) == *final(ret),
    {
        self.config.session_cache_capacity = capacity;
        self
    }

    /// Keep the local record's address fixed regardless of peers' votes.
    pub fn disable_enr_update(&mut self) -> (ret: &mut ConfigBuilder<F>)
        ensures
            *ret == (ConfigBuilder { config: Config { enr_update: false, ..old(self).config } }),
            *final(self) == *final(ret),
    {
        self.config.enr_update = false;
        self
    }

    /// The largest number of peers returned to one lookup request.
    pub fn max_nodes_response(&mut self, max: usize) -> (ret: &mut ConfigBuilder<F>)
        ensures
            *ret == (ConfigBuilder { config: Config { max_nodes_response: max, ..old(self).config } }),
            *final(self) == *final(ret),
    {
        self.config.max_nodes_response = max;
        self
    }

    /// Distinct agreeing peers needed before the local record is updated; fewer than two would let a single peer behind a NAT steer the record.
    pub fn enr_peer_update_min(&mut self, min: usize) -> (ret: &mut ConfigBuilder<F>)
        requires
            min >= 2,
        ensures
            *ret == (ConfigBuilder { config: Config { enr_peer_update_min: min, ..old(self).config } }),
            *final(self) == *final(ret),
    {
        self.config.enr_peer_update_min = min;
        self
    }

    /// How many peers one query asks in parallel.
    pub fn query_parallelism(&mut self, parallelism: usize) -> (ret: &mut ConfigBuilder<F>)
        ensures
            *ret == (ConfigBuilder { config: Config { query_parallelism: parallelism, ..old(self).config } }),
            *final(self) == *final(ret),
    {
        self.config.query_parallelism = parallelism;
        self
    }

    /// Limit peers per /24-equivalent subnet, to blunt eclipse attacks.
    pub fn ip_limit(&mut self) -> (ret: &mut ConfigBuilder<F>)
        ensures
            *ret == (ConfigBuilder { config: Config { ip_limit: true, ..old(self).config } }),
            *final(self) == *final(ret),
    {
        self.config.ip_limit = true;
        self
    }

    /// The largest number of incoming-sourced peers per bucket.
    pub fn incoming_bucket_limit(&mut self, limit: usize) -> (ret: &mut ConfigBuilder<F>)
        ensures
            *ret == (ConfigBuilder { config: Config { incoming_bucket_limit: limit, ..old(self).config } }),
            *final(self) == *final(ret),
    {
        self.config.incoming_bucket_limit = limit;
        self
    }

    /// Time between connectivity pings, in milliseconds.
    pub fn ping_interval(&mut self, interval: u64) -> (ret: &mut ConfigBuilder<F>)
        ensures
            *ret == (ConfigBuilder { config: Config { ping_interval: interval, ..old(self).config } }),
            *final(self) == *final(ret),
    {
        self.config.ping_interval = interval;
        self
    }

    /// Keep discovered peers off the event stream.
    pub fn disable_report_discovered_peers(&mut self) -> (ret: &mut ConfigBuilder<F>)
        ensures
            *ret == (ConfigBuilder { config: Config { report_discovered_peers: false, ..old(self).config } }),
            *final(self) == *final(ret),
    {
        self.config.report_discovered_peers = false;
        self
    }

    /// Inbound request quotas; `None` leaves requests unfiltered.
    pub fn filter_rate_limiter(&mut self, rate_limiter: Option<RateLimiter>) -> (ret: &mut ConfigBuilder<F>)
        ensures
            *ret == (ConfigBuilder { config: Config { filter_rate_limiter: rate_limiter, ..old(self).config } }),
            *final(self) == *final(ret),
    {
        self.config.filter_rate_limiter = rate_limiter;
        self
    }

    /// Node identities allowed per IP before the IP is banned.
    pub fn filter_max_nodes_per_ip(&mut self, max_nodes_per_ip: Option<usize>) -> (ret: &mut ConfigBuilder<F>)
        ensures
            *ret == (ConfigBuilder { config: Config { filter_max_nodes_per_ip: max_nodes_per_ip, ..old(self).config } }),
            *final(self) == *final(ret),
    {
        self.config.filter_max_nodes_per_ip = max_nodes_per_ip;
        self
    }

    /// Banned nodes allowed per IP before the IP itself is banned.
    pub fn filter_max_bans_per_ip(&mut self, max_bans_per_ip: Option<usize>) -> (ret: &mut ConfigBuilder<F>)
        ensures
            *ret == (ConfigBuilder { config: Config { filter_max_bans_per_ip: max_bans_per_ip, ..old(self).config } }),
            *final(self) == *final(ret),
    {
        self.config.filter_max_bans_per_ip = max_bans_per_ip;
        self
    }

    /// IPs and node identities to always admit or always drop.
    pub fn permit_ban_list(&mut self, list: PermitBanList) -> (ret: &mut ConfigBuilder<F>)
        ensures
            *ret == (ConfigBuilder { config: Config { permit_ban_list: list, ..old(self).config } }),
            *final(self) == *final(ret),
    {
        self.config.permit_ban_list = list;
        self
    }

    /// How long a ban lasts, in milliseconds; `None` bans forever.
    pub fn ban_duration(&mut self, ban_duration: Option<u64>) -> (ret: &mut ConfigBuilder<F>)
        ensures
            *ret == (ConfigBuilder { config: Config { ban_duration: ban_duration, ..old(self).config } }),
            *final(self) == *final(ret),
    {
        self.config.ban_duration = ban_duration;
        self
    }

    /// How long to listen for an incoming connection after advertising an address before retracting it; `None` always advertises.
    pub fn auto_nat_listen_duration(&mut self, auto_nat_listen_duration: Option<u64>) -> (ret: &mut ConfigBuilder<F>)
        ensures
            *ret == (ConfigBuilder { config: Config { auto_nat_listen_duration: auto_nat_listen_duration, ..old(self).config } }),
            *final(self) == *final(ret),
    {
        self.config.auto_nat_listen_duration = auto_nat_listen_duration;
        self
    }

    /// Source addresses in this range may advertise a differing address.
    pub fn allowed_cidr(&mut self, allowed_cidr: &Ipv4Net) -> (ret: &mut ConfigBuilder<F>)
        ensures
            *ret == (ConfigBuilder { config: Config { allowed_cidr: Some(*allowed_cidr), ..old(self).config } }),
            *final(self) == *final(ret),
    {
        self.config.allowed_cidr = Some(*allowed_cidr);
        self
    }

    /// The acceptance predicate consulted before a record enters the table.
    pub fn table_filter<G: TableFilter>(self, filter: G) -> (ret: ConfigBuilder<G>)
        ensures
            ret.config.enable_packet_filter == self.config.enable_packet_filter &&
            ret.config.request_timeout == self.config.request_timeout &&
            ret.config.vote_duration == self.config.vote_duration &&
            ret.config.query_peer_timeout == self.config.query_peer_timeout &&
            ret.config.query_timeout == self.config.query_timeout &&
            ret.config.request_retries == self.config.request_retries &&
            ret.config.session_timeout == self.config.session_timeout &&
            ret.config.session_cache_capacity == self.config.session_cache_capacity &&
            ret.config.enr_update == self.config.enr_update &&
            ret.config.max_nodes_response == self.config.max_nodes_response &&
            ret.config.enr_peer_update_min == self.config.enr_peer_update_min &&
            ret.config.query_parallelism == self.config.query_parallelism &&
            ret.config.ip_limit == self.config.ip_limit &&
            ret.config.incoming_bucket_limit == self.config.incoming_bucket_limit &&
            ret.config.table_filter == filter &&
            ret.config.ping_interval == self.config.ping_interval &&
            ret.config.report_discovered_peers == self.config.report_discovered_peers &&
            ret.config.filter_rate_limiter == self.config.filter_rate_limiter &&
            ret.config.filter_max_nodes_per_ip == self.config.filter_max_nodes_per_ip &&
            ret.config.filter_max_bans_per_ip == self.config.filter_max_bans_per_ip &&
            ret.config.permit_ban_list == self.config.permit_ban_list &&
            ret.config.ban_duration == self.config.ban_duration &&
            ret.config.auto_nat_listen_duration == self.config.auto_nat_listen_duration &&
            ret.config.listen_config == self.config.listen_config &&
            ret.config.allowed_cidr == self.config.allowed_cidr,
    {
        ConfigBuilder {
            config: Config {
                enable_packet_filter: self.config.enable_packet_filter,
                request_timeout: self.config.request_timeout,
                vote_duration: self.config.vote_duration,
                query_peer_timeout: self.config.query_peer_timeout,
                query_timeout: self.config.query_timeout,
                request_retries: self.config.request_retries,
                session_timeout: self.config.session_timeout,
                session_cache_capacity: self.config.session_cache_capacity,
                enr_update: self.config.enr_update,
                max_nodes_response: self.config.max_nodes_response,
                enr_peer_update_min: self.config.enr_peer_update_min,
                query_parallelism: self.config.query_parallelism,
                ip_limit: self.config.ip_limit,
                incoming_bucket_limit: self.config.incoming_bucket_limit,
                table_filter: filter,
                ping_interval: self.config.ping_interval,
                report_discovered_peers: self.config.report_discovered_peers,
                filter_rate_limiter: self.config.filter_rate_limiter,
                filter_max_nodes_per_ip: self.config.filter_max_nodes_per_ip,
                filter_max_bans_per_ip: self.config.filter_max_bans_per_ip,
                permit_ban_list: self.config.permit_ban_list,
                ban_duration: self.config.ban_duration,
                auto_nat_listen_duration: self.config.auto_nat_listen_duration,
                listen_config: self.config.listen_config,
                allowed_cidr: self.config.allowed_cidr,
            },
        }
    }

    /// The finished configuration. An incoming-bucket limit beyond the
    /// bucket capacity is a configuration error and is rejected here.
    pub fn build(self) -> (c: Config<F>)
        requires
            self.config.incoming_bucket_limit <= MAX_NODES_PER_BUCKET,
        ensures
            c == self.config,
    {
        self.config
    }
}

} // verus!
