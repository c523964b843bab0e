//! The wire that frames go on and come from, and the in-process one.

use std::collections::VecDeque;
use std::time::Duration;

use vstd::prelude::*;

use crate::error::{Fault, TransportError};
use crate::frame::{Frame, FrameModel};

verus! {

/// What a link was heard to say: a frame, nothing, or an error, by its view.
pub open spec fn heard(result: Result<Option<Frame>, TransportError>) -> Result<
    Option<FrameModel>,
    Fault,
> {
    match result {
        Ok(Some(frame)) => Ok(Some(frame@)),
        Ok(None) => Ok(None),
        Err(error) => Err(error@),
    }
}

/// Where frames go and come from.
///
/// What a link does is its own: [`Link::label`], [`Link::receives`] and
/// [`Link::transmits`] are where an implementation says it, and one that
/// leaves them as they stand here says nothing of itself. Neither a frame
/// nor success is promised of every link.
pub trait Link: Send + Sync {
    /// The link's name.
    open spec fn label(&self) -> Seq<char> {
        arbitrary()
    }

    /// This link, asked for a frame and given `timeout` to wait, may say
    /// `result` and be `after`.
    open spec fn receives(
        &self,
        timeout: Duration,
        result: Result<Option<FrameModel>, Fault>,
        after: &Self,
    ) -> bool {
        true
    }

    /// This link, given `frame`, may say `result` and be `after`.
    open spec fn transmits(&self, frame: FrameModel, result: Result<(), Fault>, after: &Self) -> bool {
        true
    }

    /// The link's name, for the origin URI: `eth0`, `loopback`.
    fn name(&self) -> (name: &str)
        ensures
            name@ == self.label(),
    ;

    /// The next frame, or `None` when nothing arrived within `timeout`.
    ///
    /// # Errors
    /// Where the link could not be read.
    fn receive(&mut self, timeout: Duration) -> (result: Result<Option<Frame>, TransportError>)
        ensures
            old(self).receives(timeout, heard(result), final(self)),
    ;

    /// Put a frame on the link.
    ///
    /// # Errors
    /// Where the link refused it.
    fn transmit(&mut self, frame: &Frame) -> (result: Result<(), TransportError>)
        ensures
            old(self).transmits(frame@, crate::error::outcome(result), final(self)),
    ;
}

/// An in-process wire: what is transmitted is received, in order.
pub struct Loopback {
    frames: VecDeque<Frame>,
}

impl View for Loopback {
    type V = Seq<FrameModel>;

    /// The frames on the wire, the next to be received first.
    closed spec fn view(&self) -> Seq<FrameModel> {
        self.frames@.map_values(|frame: Frame| frame@)
    }
}

/// What a wire with `frames` on it gives when it is asked for one.
pub open spec fn next_frame(frames: Seq<FrameModel>) -> Option<FrameModel> {
    if frames.len() == 0 {
        None
    } else {
        Some(frames[0])
    }
}

/// What is left on a wire with `frames` on it once it was asked for one.
pub open spec fn rest_of(frames: Seq<FrameModel>) -> Seq<FrameModel> {
    if frames.len() == 0 {
        frames
    } else {
        frames.skip(1)
    }
}

impl Loopback {
    /// A wire with nothing on it.
    #[must_use]
    pub fn new() -> (wire: Loopback)
        ensures
            wire@ == Seq::<FrameModel>::empty(),
    {
        let wire = Loopback { frames: VecDeque::new() };
        assert(wire@ =~= Seq::<FrameModel>::empty());
        wire
    }
}

impl Default for Loopback {
    /// A wire with nothing on it.
    fn default() -> (wire: Loopback)
        ensures
            wire@ == Seq::<FrameModel>::empty(),
    {
        Loopback::new()
    }
}

impl Link for Loopback {
    open spec fn label(&self) -> Seq<char> {
        "loopback"@
    }

    /// The first frame on the wire comes off it, however long the wait.
    open spec fn receives(
        &self,
        timeout: Duration,
        result: Result<Option<FrameModel>, Fault>,
        after: &Loopback,
    ) -> bool {
        &&& result == Ok::<Option<FrameModel>, Fault>(next_frame(self@))
        &&& after@ == rest_of(self@)
    }

    /// The frame goes on the wire behind the others.
    open spec fn transmits(
        &self,
        frame: FrameModel,
        result: Result<(), Fault>,
        after: &Loopback,
    ) -> bool {
        &&& result is Ok
        &&& after@ == self@.push(frame)
    }

    fn name(&self) -> (name: &str) {
        "loopback"
    }

    fn receive(&mut self, timeout: Duration) -> (result: Result<Option<Frame>, TransportError>) {
        let frame = self.frames.pop_front();
        assert(self@ =~= rest_of(old(self)@));
        Ok(frame)
    }

    fn transmit(&mut self, frame: &Frame) -> (result: Result<(), TransportError>) {
        self.frames.push_back(frame.clone());
        assert(self@ =~= old(self)@.push(frame@));
        Ok(())
    }
}

} // verus!
