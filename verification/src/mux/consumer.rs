//! What a subscriber is given: groups, and the frames of a group, as they come.
//!
//! Each queue holds what the transport answers next. Where it is empty, there is nothing yet.

use crate::error::Error;
use vstd::prelude::*;

verus! {

/// Whether something is there already.
#[derive(Debug)]
pub enum Polled<T> {
    Ready(T),
    Pending,
}

/// A group that is read.
#[derive(Debug, Clone)]
pub struct GroupConsumer<T> {
    pub sequence: u64,
    /// The frames in order; none after the last.
    pub frames: Vec<Result<Option<T>, Error>>,
}

/// What is read of a group.
pub struct GroupView<T> {
    pub sequence: u64,
    pub frames: Seq<Result<Option<T>, Error>>,
}

impl<T> GroupConsumer<T> {
    /// What is read of the group.
    pub open spec fn view(&self) -> GroupView<T> {
        GroupView { sequence: self.sequence, frames: self.frames@ }
    }

    /// Reads the next frame, if it is there.
    pub fn poll_read_frame(&mut self) -> (res: Polled<Result<Option<T>, Error>>)
        ensures
            match res {
                Polled::Pending => old(self)@.frames.len() == 0 && final(self)@ == old(self)@,
                Polled::Ready(frame) => {
                    &&& old(self)@.frames.len() > 0
                    &&& frame == old(self)@.frames[0]
                    &&& final(self)@ == (GroupView {
                        frames: old(self)@.frames.drop_first(),
                        ..old(self)@
                    })
                },
            },
    {
        if self.frames.len() == 0 {
            return Polled::Pending;
        }
        let frame = self.frames.remove(0);
        assert(self.frames@ =~= old(self).frames@.drop_first());
        Polled::Ready(frame)
    }
}

/// A track that is read.
#[derive(Debug, Clone)]
pub struct TrackConsumer<T> {
    pub name: String,
    /// The groups in order; none after the last. What follows that, or a failure, is not read.
    pub groups: Vec<Result<Option<GroupConsumer<T>>, Error>>,
}

/// What is read of a track.
pub struct TrackConsumerView<T> {
    pub name: Seq<char>,
    pub groups: Seq<Result<Option<GroupView<T>>, Error>>,
}

/// What an answer is.
pub open spec fn answer<T>(res: Result<Option<GroupConsumer<T>>, Error>) -> Result<
    Option<GroupView<T>>,
    Error,
> {
    match res {
        Ok(Some(g)) => Ok(Some(g@)),
        Ok(None) => Ok(None),
        Err(e) => Err(e),
    }
}

impl<T> TrackConsumer<T> {
    /// What is read of the track.
    pub open spec fn view(&self) -> TrackConsumerView<T> {
        TrackConsumerView {
            name: self.name@,
            groups: self.groups@.map_values(
                |g: Result<Option<GroupConsumer<T>>, Error>| answer(g),
            ),
        }
    }

    /// A track of which nothing has come.
    pub fn new(name: String) -> (track: Self)
        ensures
            track@ == (TrackConsumerView::<T> { name: name@, groups: Seq::empty() }),
    {
        let track = TrackConsumer { name, groups: Vec::new() };
        assert(track@.groups =~= Seq::empty());
        track
    }

    /// Receives the next group, if it is there. That a track is over, or has failed, stays so: it
    /// is told again whenever it is asked for.
    pub fn poll_recv_group(&mut self) -> (res: Polled<Result<Option<GroupConsumer<T>>, Error>>)
        ensures
            final(self).name == old(self).name,
            match res {
                Polled::Pending => old(self)@.groups.len() == 0 && final(self)@ == old(self)@,
                Polled::Ready(group) => {
                    &&& old(self)@.groups.len() > 0
                    &&& answer(group) == old(self)@.groups[0]
                    &&& final(self)@ == if group matches Ok(Some(_)) {
                        TrackConsumerView {
                            groups: old(self)@.groups.drop_first(),
                            ..old(self)@
                        }
                    } else {
                        old(self)@
                    }
                },
            },
    {
        if self.groups.len() == 0 {
            return Polled::Pending;
        }
        match &self.groups[0] {
            Ok(None) => {
                return Polled::Ready(Ok(None));
            },
            Err(e) => {
                return Polled::Ready(Err(e.clone()));
            },
            Ok(Some(_)) => {},
        }
        let group = self.groups.remove(0);
        assert(self@.groups =~= old(self)@.groups.drop_first());
        Polled::Ready(group)
    }
}

} // verus!
