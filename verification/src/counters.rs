//! Counters at the seams of the terminal pipeline.

use vstd::prelude::*;

use crate::text;

verus! {

/// How often each stage of the pipeline has run.
#[derive(Debug)]
pub struct PipelineCounters {
    pub pty_reads: u64,
    pub pty_broadcast_sends: u64,
    pub pusher_recvs: u64,
    pub store_updates: u64,
    pub events_sent: u64,
    pub event_consumer_recvs: u64,
    pub delta_msg_some: u64,
    pub emit_ok: u64,
    pub bridge_recvs: u64,
    pub bridge_sends: u64,
    pub transport_writes: u64,
    pub acks_received: u64,
    pub browser_frames_in: u64,
}

/// The counters at one moment.
#[derive(Debug)]
pub struct PipelineSnapshot {
    pub pty_reads: u64,
    pub pty_broadcast_sends: u64,
    pub pusher_recvs: u64,
    pub store_updates: u64,
    pub events_sent: u64,
    pub event_consumer_recvs: u64,
    pub delta_msg_some: u64,
    pub emit_ok: u64,
    pub bridge_recvs: u64,
    pub bridge_sends: u64,
    pub transport_writes: u64,
    pub acks_received: u64,
    pub browser_frames_in: u64,
}

impl Default for PipelineCounters {
    fn default() -> (r: Self)
        ensures
            r.pty_reads == 0,
            r.pty_broadcast_sends == 0,
            r.pusher_recvs == 0,
            r.store_updates == 0,
            r.events_sent == 0,
            r.event_consumer_recvs == 0,
            r.delta_msg_some == 0,
            r.emit_ok == 0,
            r.bridge_recvs == 0,
            r.bridge_sends == 0,
            r.transport_writes == 0,
            r.acks_received == 0,
            r.browser_frames_in == 0,
    {
        PipelineCounters {
            pty_reads: 0,
            pty_broadcast_sends: 0,
            pusher_recvs: 0,
            store_updates: 0,
            events_sent: 0,
            event_consumer_recvs: 0,
            delta_msg_some: 0,
            emit_ok: 0,
            bridge_recvs: 0,
            bridge_sends: 0,
            transport_writes: 0,
            acks_received: 0,
            browser_frames_in: 0,
        }
    }
}

impl PipelineCounters {
    /// The counters at this moment.
    pub fn snapshot(&self) -> (r: PipelineSnapshot)
        ensures
            r.pty_reads == self.pty_reads,
            r.pty_broadcast_sends == self.pty_broadcast_sends,
            r.pusher_recvs == self.pusher_recvs,
            r.store_updates == self.store_updates,
            r.events_sent == self.events_sent,
            r.event_consumer_recvs == self.event_consumer_recvs,
            r.delta_msg_some == self.delta_msg_some,
            r.emit_ok == self.emit_ok,
            r.bridge_recvs == self.bridge_recvs,
            r.bridge_sends == self.bridge_sends,
            r.transport_writes == self.transport_writes,
            r.acks_received == self.acks_received,
            r.browser_frames_in == self.browser_frames_in,
    {
        PipelineSnapshot {
            pty_reads: self.pty_reads,
            pty_broadcast_sends: self.pty_broadcast_sends,
            pusher_recvs: self.pusher_recvs,
            store_updates: self.store_updates,
            events_sent: self.events_sent,
            event_consumer_recvs: self.event_consumer_recvs,
            delta_msg_some: self.delta_msg_some,
            emit_ok: self.emit_ok,
            bridge_recvs: self.bridge_recvs,
            bridge_sends: self.bridge_sends,
            transport_writes: self.transport_writes,
            acks_received: self.acks_received,
            browser_frames_in: self.browser_frames_in,
        }
    }
}

/// Appends a label and a count.
fn append_count(s: &mut String, label: &str, n: u64)
    ensures
        final(s)@ == old(s)@ + label@ + text::decimal(n as nat),
{
    s.append(label);
    let d = text::to_decimal(n);
    s.append(d.as_str());
}

impl PipelineSnapshot {
    /// The counters as one line of text.
    pub open spec fn line(self) -> Seq<char> {
        "pty_rd="@ + text::decimal(self.pty_reads as nat)
        + " bc_tx="@ + text::decimal(self.pty_broadcast_sends as nat)
        + " push_rx="@ + text::decimal(self.pusher_recvs as nat)
        + " store="@ + text::decimal(self.store_updates as nat)
        + " ev_tx="@ + text::decimal(self.events_sent as nat)
        + " ev_rx="@ + text::decimal(self.event_consumer_recvs as nat)
        + " delta="@ + text::decimal(self.delta_msg_some as nat)
        + " emit="@ + text::decimal(self.emit_ok as nat)
        + " br_rx="@ + text::decimal(self.bridge_recvs as nat)
        + " br_tx="@ + text::decimal(self.bridge_sends as nat)
        + " tp_wr="@ + text::decimal(self.transport_writes as nat)
        + " ack_rx="@ + text::decimal(self.acks_received as nat)
        + " b_in="@ + text::decimal(self.browser_frames_in as nat)
    }

    /// The counters as one line of text.
    pub fn to_line(&self) -> (r: String)
        ensures
            r@ == self.line(),
    {
        let mut s: String = String::new();
        append_count(&mut s, "pty_rd=", self.pty_reads);
        append_count(&mut s, " bc_tx=", self.pty_broadcast_sends);
        append_count(&mut s, " push_rx=", self.pusher_recvs);
        append_count(&mut s, " store=", self.store_updates);
        append_count(&mut s, " ev_tx=", self.events_sent);
        append_count(&mut s, " ev_rx=", self.event_consumer_recvs);
        append_count(&mut s, " delta=", self.delta_msg_some);
        append_count(&mut s, " emit=", self.emit_ok);
        append_count(&mut s, " br_rx=", self.bridge_recvs);
        append_count(&mut s, " br_tx=", self.bridge_sends);
        append_count(&mut s, " tp_wr=", self.transport_writes);
        append_count(&mut s, " ack_rx=", self.acks_received);
        append_count(&mut s, " b_in=", self.browser_frames_in);
        assert(s@ =~= self.line());
        s
    }
}

} // verus!
