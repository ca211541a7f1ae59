//! The decode-forward engine: which packets are fed, and which frame is kept.

use vstd::prelude::*;

use crate::error::ExtractionError;
use crate::resolution::{final_phase, lemma_drive_resolves, resolve};

verus! {

/// What the engine reads of one packet: the stream it belongs to and its
/// decode timestamp, in the time-base units of that stream.
#[derive(Clone, Copy, Debug, PartialEq, Eq, Structural)]
pub struct PacketInfo {
    pub stream_index: usize,
    pub dts: i64,
}

/// The decoder's answer after one packet was sent to it.
#[derive(Clone, Copy, Debug, PartialEq, Eq, Structural)]
pub enum DecodeOutcome {
    /// A decoded frame came out.
    Frame,
    /// The decoder needs more packets before it can give a frame.
    TryAgain,
    /// Any other decoder error.
    Failed,
}

/// What the driver reports to the engine.
#[derive(Clone, Copy, Debug, PartialEq, Eq, Structural)]
pub enum Event {
    /// The next packet read from the post-seek cursor.
    Packet(PacketInfo),
    /// The cursor has no more packets.
    EndOfStream,
    /// The decoder's answer to the packet that the engine asked to feed.
    Decoded(DecodeOutcome),
}

/// Where the engine stands.
#[derive(Clone, Copy, Debug, PartialEq, Eq, Structural)]
pub enum Phase {
    /// Waiting for a packet; packets of other streams are skipped.
    Scanning,
    /// A packet of the video stream, not past the target, is with the decoder.
    Feeding { dts: i64 },
    /// Ended with the target frame retained.
    Done,
    /// Ended on a packet past the target, with no frame retained.
    Overshot,
    /// Ended at the end of the stream, with no frame retained.
    Exhausted,
}

/// What the driver does next.
#[derive(Clone, Copy, Debug, PartialEq, Eq, Structural)]
pub enum Action {
    /// Read the next packet and report it (or the end of the stream).
    ReadPacket,
    /// Send the packet just reported to the decoder, try to receive a frame,
    /// and report the outcome.
    Feed,
    /// Keep the frame just decoded in place of any earlier one, then read on.
    Retain,
    /// Report the decoder error on the diagnostic channel, then read on.
    Report,
    /// Stop reading: the engine has ended.
    Stop,
}

/// One packet of a recorded source together with the answer the decoder
/// gives when that packet is fed to it in order.
#[derive(Clone, Copy, Debug, PartialEq, Eq, Structural)]
pub struct RecordedPacket {
    pub packet: PacketInfo,
    pub outcome: DecodeOutcome,
}

/// A packet overshoots when its decode timestamp lies more than one unit past
/// the target. The unit of slack absorbs the rounding of the target position.
pub open spec fn overshoots(dts: i64, target: i64) -> bool {
    dts - 1 > target
}

/// The decode-forward engine: a state machine over the packets that follow
/// the seek point. It decides which packets go to the decoder and which
/// decoded frame is kept; the driver reads, decodes and holds the frame.
#[derive(Clone, Copy, Debug, PartialEq, Eq, Structural)]
pub struct DecodeForward {
    /// The target position.
    pub target: i64,
    /// Index of the selected video stream.
    pub stream_index: usize,
    pub phase: Phase,
    /// Decode timestamp of the packet whose feeding gave the retained frame.
    pub retained: Option<i64>,
}

impl DecodeForward {
    /// The phase agrees with what is retained, and nothing fed or retained
    /// lies past the tolerance.
    pub open spec fn wf(self) -> bool {
        &&& match self.phase {
            Phase::Scanning => true,
            Phase::Feeding { dts } => !overshoots(dts, self.target),
            Phase::Done => self.retained is Some,
            Phase::Overshot => self.retained is None,
            Phase::Exhausted => self.retained is None,
        }
        &&& match self.retained {
            Some(dts) => !overshoots(dts, self.target),
            None => true,
        }
    }

    /// The engine right after the seek.
    pub open spec fn start(target: i64, stream_index: usize) -> Self {
        DecodeForward { target, stream_index, phase: Phase::Scanning, retained: None }
    }

    pub open spec fn is_terminal(self) -> bool {
        self.phase is Done || self.phase is Overshot || self.phase is Exhausted
    }

    pub open spec fn with_phase(self, phase: Phase) -> Self {
        DecodeForward { phase, ..self }
    }

    /// The transition function. An event that the current phase does not
    /// await changes nothing, and the action repeats what the engine awaits.
    pub open spec fn next(self, event: Event) -> (Self, Action) {
        match self.phase {
            Phase::Scanning => match event {
                Event::Packet(packet) => {
                    if packet.stream_index != self.stream_index {
                        (self, Action::ReadPacket)
                    } else if overshoots(packet.dts, self.target) {
                        if self.retained is Some {
                            (self.with_phase(Phase::Done), Action::Stop)
                        } else {
                            (self.with_phase(Phase::Overshot), Action::Stop)
                        }
                    } else {
                        (self.with_phase(Phase::Feeding { dts: packet.dts }), Action::Feed)
                    }
                },
                Event::EndOfStream => {
                    if self.retained is Some {
                        (self.with_phase(Phase::Done), Action::Stop)
                    } else {
                        (self.with_phase(Phase::Exhausted), Action::Stop)
                    }
                },
                Event::Decoded(_) => (self, Action::ReadPacket),
            },
            Phase::Feeding { dts } => match event {
                Event::Decoded(DecodeOutcome::Frame) => (
                    DecodeForward { phase: Phase::Scanning, retained: Some(dts), ..self },
                    Action::Retain,
                ),
                Event::Decoded(DecodeOutcome::TryAgain) => (
                    self.with_phase(Phase::Scanning),
                    Action::ReadPacket,
                ),
                Event::Decoded(DecodeOutcome::Failed) => (
                    self.with_phase(Phase::Scanning),
                    Action::Report,
                ),
                _ => (self, Action::Feed),
            },
            _ => (self, Action::Stop),
        }
    }

    /// The state reached by driving the engine over the packets of `source`
    /// from index `from` on: each packet is offered, fed where the engine
    /// asks for it and answered as recorded, until the engine ends or the
    /// packets run out.
    pub open spec fn drive(self, source: Seq<RecordedPacket>, from: nat) -> Self
        decreases source.len() - from,
    {
        if self.is_terminal() {
            self
        } else if from >= source.len() {
            self.next(Event::EndOfStream).0
        } else {
            let offered = self.next(Event::Packet(source[from as int].packet)).0;
            let answered = if offered.phase is Feeding {
                offered.next(Event::Decoded(source[from as int].outcome)).0
            } else {
                offered
            };
            answered.drive(source, from + 1)
        }
    }

    /// What the caller gets once the engine has ended: the decode timestamp
    /// of the retained frame, or the failure.
    pub open spec fn verdict_spec(self) -> Result<i64, ExtractionError> {
        match (self.phase, self.retained) {
            (Phase::Done, Some(dts)) => Ok(dts),
            _ => Err(ExtractionError::NoFrameProduced),
        }
    }

    pub fn new(target: i64, stream_index: usize) -> (engine: Self)
        ensures
            engine == Self::start(target, stream_index),
            engine.wf(),
    {
        DecodeForward { target, stream_index, phase: Phase::Scanning, retained: None }
    }

    /// Takes one event and says what the driver does next.
    pub fn step(&mut self, event: Event) -> (action: Action)
        ensures
            *final(self) == old(self).next(event).0,
            action == old(self).next(event).1,
            old(self).wf() ==> final(self).wf(),
    {
        match self.phase {
            Phase::Scanning => match event {
                Event::Packet(packet) => {
                    if packet.stream_index != self.stream_index {
                        Action::ReadPacket
                    } else if packet.dts > self.target && packet.dts - 1 > self.target {
                        self.close(Phase::Overshot)
                    } else {
                        self.phase = Phase::Feeding { dts: packet.dts };
                        Action::Feed
                    }
                },
                Event::EndOfStream => self.close(Phase::Exhausted),
                Event::Decoded(_) => Action::ReadPacket,
            },
            Phase::Feeding { dts } => match event {
                Event::Decoded(DecodeOutcome::Frame) => {
                    self.phase = Phase::Scanning;
                    self.retained = Some(dts);
                    Action::Retain
                },
                Event::Decoded(DecodeOutcome::TryAgain) => {
                    self.phase = Phase::Scanning;
                    Action::ReadPacket
                },
                Event::Decoded(DecodeOutcome::Failed) => {
                    self.phase = Phase::Scanning;
                    Action::Report
                },
                _ => Action::Feed,
            },
            _ => Action::Stop,
        }
    }

    /// Ends the run: `Done` if a frame is retained, else the phase given.
    fn close(&mut self, empty_handed: Phase) -> (action: Action)
        ensures
            *final(self) == old(self).with_phase(
                if old(self).retained is Some {
                    Phase::Done
                } else {
                    empty_handed
                },
            ),
            action == Action::Stop,
    {
        match self.retained {
            Some(_) => {
                self.phase = Phase::Done;
            },
            None => {
                self.phase = empty_handed;
            },
        }
        Action::Stop
    }

    /// True once the engine has ended and reads no more packets.
    pub fn finished(&self) -> (ended: bool)
        ensures
            ended == self.is_terminal(),
    {
        match self.phase {
            Phase::Done => true,
            Phase::Overshot => true,
            Phase::Exhausted => true,
            _ => false,
        }
    }

    /// The decode timestamp of the retained frame if the engine ended with
    /// one, else `NoFrameProduced`.
    pub fn verdict(&self) -> (result: Result<i64, ExtractionError>)
        ensures
            result == self.verdict_spec(),
    {
        match (self.phase, self.retained) {
            (Phase::Done, Some(dts)) => Ok(dts),
            _ => Err(ExtractionError::NoFrameProduced),
        }
    }

    /// Decodes forward through a recorded source: offers each packet in turn,
    /// feeds it where the engine asks for that and answers as recorded, until
    /// the engine ends or the packets run out. An engine fresh from the seek
    /// ends retaining the last frame decoded before the first packet of its
    /// stream that overshoots the target.
    pub fn run(&mut self, source: &Vec<RecordedPacket>)
        ensures
            *final(self) == old(self).drive(source@, 0),
            old(self).wf() ==> final(self).wf(),
            *old(self) == Self::start(old(self).target, old(self).stream_index) ==> {
                &&& final(self).target == old(self).target
                &&& final(self).stream_index == old(self).stream_index
                &&& final(self).retained == resolve(
                    source@,
                    old(self).stream_index,
                    old(self).target,
                )
                &&& final(self).phase == final_phase(
                    source@,
                    old(self).stream_index,
                    old(self).target,
                )
            },
    {
        let mut i: usize = 0;
        while i < source.len() && !self.finished()
            invariant
                i <= source.len(),
                old(self).wf() ==> self.wf(),
                old(self).drive(source@, 0) == self.drive(source@, i as nat),
            decreases source.len() - i,
        {
            let action = self.step(Event::Packet(source[i].packet));
            match action {
                Action::Feed => {
                    self.step(Event::Decoded(source[i].outcome));
                },
                _ => {},
            }
            i = i + 1;
        }
        if !self.finished() {
            self.step(Event::EndOfStream);
        }
        proof {
            lemma_drive_resolves(source@, old(self).stream_index, old(self).target);
        }
    }
}

} // verus!
