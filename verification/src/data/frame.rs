//! A value with header information, used when transferring between channels.

use crate::data::value::Value;
use crate::mpsc::OutgoingMessage;
use vstd::prelude::*;

verus! {

/// A Value with header information added, which is used when transferring between channels.
#[derive(Debug)]
pub struct Frame {
    header: Header,
    payload: Option<Value>,
}

/// The port and the type of a frame.
#[derive(Debug, Clone, Copy)]
pub struct Header {
    port: u8,
    frame_type: FrameType,
}

/// Represents the type of frame.
///
/// In the case of Data, the payload exists, but in the case of Signal, it does not exist.
#[derive(Debug, Clone, Copy, PartialEq, Eq, Structural)]
pub enum FrameType {
    Data,
    Signal(Signal),
}

/// Special messages for each node.
#[derive(Debug, Clone, Copy, PartialEq, Eq, Structural)]
pub enum Signal {
    Stop,
    UpstreamFinish,
}

impl Header {
    pub closed spec fn spec_port(&self) -> u8 {
        self.port
    }

    pub closed spec fn spec_frame_type(&self) -> FrameType {
        self.frame_type
    }

    pub fn data() -> (h: Header)
        ensures
            h.spec_port() == 0,
            h.spec_frame_type() == FrameType::Data,
    {
        Header { port: 0, frame_type: FrameType::Data }
    }

    pub fn signal(v: Signal) -> (h: Header)
        ensures
            h.spec_port() == 0,
            h.spec_frame_type() == FrameType::Signal(v),
    {
        Header { port: 0, frame_type: FrameType::Signal(v) }
    }
}

impl Frame {
    pub closed spec fn spec_port(&self) -> u8 {
        self.header.port
    }

    pub closed spec fn spec_frame_type(&self) -> FrameType {
        self.header.frame_type
    }

    pub closed spec fn spec_payload(&self) -> Option<Value> {
        self.payload
    }

    /// A data frame carrying `v`, addressed to port 0.
    pub fn from_value(v: Value) -> (f: Frame)
        ensures
            f.spec_port() == 0,
            f.spec_frame_type() == FrameType::Data,
            f.spec_payload() == Some(v),
    {
        Frame { header: Header::data(), payload: Some(v) }
    }

    /// A data frame carrying `Value::Null`.
    pub fn none() -> (f: Frame)
        ensures
            f.spec_port() == 0,
            f.spec_frame_type() == FrameType::Data,
            f.spec_payload() == Some(Value::Null),
    {
        Frame::from_value(Value::Null)
    }

    pub fn value(&self) -> (r: Option<&Value>)
        ensures
            match self.spec_payload() {
                Some(v) => r == Some(&v),
                None => r is None,
            },
    {
        match &self.payload {
            Some(v) => Some(v),
            None => None,
        }
    }

    pub fn value_mut(&mut self) -> (r: Option<&mut Value>)
        ensures
            old(self).spec_payload() is None ==> r is None && *final(self) == *old(self),
            old(self).spec_payload() is Some ==> r is Some && *r->0 == old(self).spec_payload()->0
                && final(self).spec_payload() == Some(*final(r->0)) && final(self).spec_port()
                == old(self).spec_port() && final(self).spec_frame_type()
                == old(self).spec_frame_type(),
    {
        match &mut self.payload {
            Some(v) => Some(v),
            None => None,
        }
    }

    pub fn port(&self) -> (p: u8)
        ensures
            p == self.spec_port(),
    {
        self.header.port
    }

    fn set_port(&mut self, port: u8)
        ensures
            final(self).spec_port() == port,
            final(self).spec_frame_type() == old(self).spec_frame_type(),
            final(self).spec_payload() == old(self).spec_payload(),
    {
        self.header.port = port;
    }

    /// The signal that stops a node.
    pub fn stop() -> (f: Frame)
        ensures
            f.spec_port() == 0,
            f.spec_frame_type() == FrameType::Signal(Signal::Stop),
            f.spec_payload() is None,
    {
        Frame { header: Header::signal(Signal::Stop), payload: None }
    }

    /// The signal that an upstream node has finished.
    pub fn upstream_finish() -> (f: Frame)
        ensures
            f.spec_port() == 0,
            f.spec_frame_type() == FrameType::Signal(Signal::UpstreamFinish),
            f.spec_payload() is None,
    {
        Frame { header: Header::signal(Signal::UpstreamFinish), payload: None }
    }

    pub fn is_stop(&self) -> (b: bool)
        ensures
            b == (self.spec_frame_type() == FrameType::Signal(Signal::Stop)),
    {
        self.header.frame_type == FrameType::Signal(Signal::Stop)
    }

    pub fn is_upstream_finish(&self) -> (b: bool)
        ensures
            b == (self.spec_frame_type() == FrameType::Signal(Signal::UpstreamFinish)),
    {
        self.header.frame_type == FrameType::Signal(Signal::UpstreamFinish)
    }
}

impl OutgoingMessage for Frame {
    fn set_port(&mut self, port: u8)
        ensures
            final(self).spec_port() == port,
            final(self).spec_frame_type() == old(self).spec_frame_type(),
            final(self).spec_payload() == old(self).spec_payload(),
    {
        Frame::set_port(self, port)
    }
}

impl Default for Frame {
    fn default() -> (f: Frame)
        ensures
            f.spec_port() == 0,
            f.spec_frame_type() == FrameType::Data,
            f.spec_payload() == Some(Value::Null),
    {
        Frame::none()
    }
}

impl Clone for Frame {
    fn clone(&self) -> (f: Frame)
        ensures
            f.spec_port() == self.spec_port(),
            f.spec_frame_type() == self.spec_frame_type(),
            f.spec_payload() is None <==> self.spec_payload() is None,
            f.spec_payload() is Some ==> f.spec_payload()->0@ == self.spec_payload()->0@,
    {
        let payload = match &self.payload {
            Some(v) => Some(v.deep_copy()),
            None => None,
        };
        Frame { header: self.header, payload }
    }
}

} // verus!
