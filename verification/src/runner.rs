//! The pure core of a device runner.
//!
//! A runner owns a device name and an operating mode: `Live` opens a real
//! transport at a configured path, `Loopback` idles and only confirms the
//! wiring.  The transport loop itself — opening the port, awaiting reads —
//! belongs to the application shell; everything it decides with the bytes
//! it gets lands here: `ingest` drives the decoder, publishes each emitted
//! frame to the shared slot, and hands the frames back for fan-out.

use vstd::prelude::*;

use crate::config;
use crate::decoder::{spec_run, views_of, VeDirectMpptDecoder};
use crate::frame::MpptFrame;
use crate::laws::lemma_run_wf;
use crate::slot::TelemetrySlot;

verus! {

/// A telemetry device: constructed either against a real transport path or
/// as a loopback stand-in.
pub trait Device: Sized {
    /// The device's configured name.
    spec fn spec_name(&self) -> Seq<char>;

    /// Whether the device is a loopback stand-in without a transport.
    spec fn spec_is_loopback(&self) -> bool;

    /// The transport path the device was bound to (empty for loopback).
    spec fn spec_port(&self) -> Seq<char>;

    /// A device bound to the transport at `path`.
    fn device(name: &str, path: &str) -> (r: Self)
        ensures
            r.spec_name() == name@,
            r.spec_port() == path@,
            !r.spec_is_loopback(),
    ;

    /// A loopback device with no transport.
    fn loopback(name: &str) -> (r: Self)
        ensures
            r.spec_name() == name@,
            r.spec_port() == Seq::<char>::empty(),
            r.spec_is_loopback(),
    ;
}

/// One VE.Direct charge controller: its identity, its mode, and the shared
/// slot its latest frame is published to.
pub struct VeDirectMppt {
    pub loopback: bool,
    pub name: String,
    pub port: String,
    pub telemetry: TelemetrySlot,
}

impl Device for VeDirectMppt {
    open spec fn spec_name(&self) -> Seq<char> {
        self.name@
    }

    open spec fn spec_is_loopback(&self) -> bool {
        self.loopback
    }

    open spec fn spec_port(&self) -> Seq<char> {
        self.port@
    }

    fn device(name: &str, path: &str) -> (r: VeDirectMppt)
        ensures
            r.spec_name() == name@,
            r.spec_port() == path@,
            !r.spec_is_loopback(),
    {
        VeDirectMppt {
            loopback: false,
            name: name.to_owned(),
            port: path.to_owned(),
            telemetry: TelemetrySlot::new(),
        }
    }

    fn loopback(name: &str) -> (r: VeDirectMppt)
        ensures
            r.spec_name() == name@,
            r.spec_port() == Seq::<char>::empty(),
            r.spec_is_loopback(),
    {
        VeDirectMppt {
            loopback: true,
            name: name.to_owned(),
            port: String::new(),
            telemetry: TelemetrySlot::new(),
        }
    }
}

impl VeDirectMppt {
    /// The device a configuration entry describes: live when a port is
    /// configured, loopback otherwise.
    pub fn from_config(name: &str, cfg: &config::Mppt) -> (r: VeDirectMppt)
        ensures
            r.spec_name() == name@,
            r.spec_is_loopback() == (cfg.port is None),
            cfg.port matches Some(p) ==> r.port@ == p@,
    {
        match &cfg.port {
            Some(port) => Self::device(name, port.as_str()),
            None => Self::loopback(name),
        }
    }

    /// Drives the decoder with one chunk read from the transport: every
    /// frame a block in the stream completes is published whole to the
    /// shared slot and returned, in order, for fan-out.
    pub fn ingest(
        &self,
        dec: &mut VeDirectMpptDecoder,
        chunk: &[u8],
        now: u64,
    ) -> (frames: Vec<MpptFrame>)
        requires
            old(dec)@.wf(),
        ensures
            final(dec)@ == spec_run(old(dec)@, chunk@, now).0,
            views_of(frames@) == spec_run(old(dec)@, chunk@, now).1,
            final(dec)@.wf(),
    {
        proof {
            lemma_run_wf(old(dec)@, chunk@, now);
        }
        let frames = dec.run_bytes(chunk, now);
        let ghost outs = spec_run(old(dec)@, chunk@, now).1;
        let mut i: usize = 0;
        while i < frames.len()
            invariant
                views_of(frames@) == outs,
                forall|j: int|
                    0 <= j < outs.len() ==> (#[trigger] outs[j]).wf() && outs[j].timestamp
                        is Some,
            decreases frames.len() - i,
        {
            proof {
                assert(views_of(frames@)[i as int] == frames@[i as int]@);
            }
            self.telemetry.store(frames[i].duplicate());
            i = i + 1;
        }
        frames
    }
}

} // verus!
