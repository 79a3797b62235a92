//! A user-space TCP stack on a polled network port.
//!
//! The library holds what the stack decides and keeps: how frames are taken
//! apart and built, what a connection knows, and what an engine does about a
//! segment, a timer or a request of the application. It touches no device and
//! reads no clock: the time, the frames and what became of a transmission are
//! handed to it.
pub mod arp;
pub mod bench_alloc_audit;
pub mod bytes;
pub mod clock;
pub mod config_laws;
pub mod conn_laws;
pub mod counters;
pub mod dpdk_consts;
pub mod ena_xstats;
pub mod engine;
pub mod engine_accept;
pub mod engine_config;
pub mod engine_conn;
pub mod engine_fire;
pub mod engine_input;
pub mod engine_laws;
pub mod engine_listen;
pub mod engine_loop;
pub mod engine_poll;
pub mod engine_port;
pub mod engine_request;
pub mod engine_resend;
pub mod engine_rx;
pub mod engine_segment;
pub mod engine_timers;
pub mod engine_tx;
pub mod errno;
pub mod error;
pub mod fault_injector;
pub mod flow_table;
pub mod icmp;
pub mod iovec;
pub mod iss;
pub mod l2;
pub mod l3_ip;
pub mod mempool;
pub mod num;
pub mod poll_laws;
pub mod report_laws;
pub mod rtt_histogram;
pub mod rx_laws;
pub mod siphash24;
pub mod step_laws;
pub mod table_laws;
pub mod tcp_conn;
pub mod tcp_events;
pub mod tcp_input;
pub mod tcp_laws;
pub mod tcp_options;
pub mod tcp_output;
pub mod tcp_rack;
pub mod tcp_reassembly;
pub mod tcp_retrans;
pub mod tcp_rtt;
pub mod tcp_sack;
pub mod tcp_seq;
pub mod tcp_state;
pub mod tcp_timer_wheel;
pub mod tcp_tlp;
pub mod test_server;
pub mod text;
pub mod text_laws;
pub mod timer_laws;
pub mod wire_laws;
