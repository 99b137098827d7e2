//! Log levels, the filter between them, and the buffer that holds log
//! bytes until they are sent out.
use vstd::prelude::*;
use crate::circular_buffer::{CircularBuffer, keep_last, lemma_keeps_newest};

verus! {

/// Severity of a log message, least severe first.
#[derive(PartialEq, Eq, Structural, Clone, Copy, Debug)]
pub enum LogLevel {
    Debug,
    Info,
    Warning,
    Error,
}

/// Position of a level in the order of severity.
pub open spec fn rank(l: LogLevel) -> int {
    match l {
        LogLevel::Debug => 0,
        LogLevel::Info => 1,
        LogLevel::Warning => 2,
        LogLevel::Error => 3,
    }
}

impl LogLevel {
    /// Whether a message at this level passes a logger set to `other`:
    /// it does when this level is at least as severe.
    pub fn should_log(&self, other: &Self) -> (r: bool)
        ensures
            r == (rank(*other) <= rank(*self)),
    {
        match self {
            LogLevel::Debug => *other == LogLevel::Debug,
            LogLevel::Info => *other == LogLevel::Debug || *other == LogLevel::Info,
            LogLevel::Warning => {
                *other == LogLevel::Debug || *other == LogLevel::Info || *other == LogLevel::Warning
            },
            LogLevel::Error => {
                *other == LogLevel::Debug || *other == LogLevel::Info || *other == LogLevel::Warning
                    || *other == LogLevel::Error
            },
        }
    }
}

/// Slots of the log's ring buffer; one fewer bytes are kept.
pub const BUF_LEN: usize = 512;

/// Collects the bytes of log messages that pass its level until they are
/// flushed; when more pile up than fit, the oldest are dropped.
pub struct Logger {
    log_level: LogLevel,
    buf: CircularBuffer<u8>,
}

impl Logger {
    pub closed spec fn level(&self) -> LogLevel {
        self.log_level
    }

    /// Bytes waiting to be sent, oldest first.
    pub closed spec fn pending(&self) -> Seq<u8> {
        self.buf@
    }

    pub closed spec fn wf(&self) -> bool {
        self.buf.wf() && self.buf.capacity() == BUF_LEN
    }

    pub fn new(log_level: LogLevel) -> (r: Self)
        ensures
            r.wf(),
            r.level() == log_level,
            r.pending() == Seq::<u8>::empty(),
    {
        Logger { log_level, buf: CircularBuffer::new(BUF_LEN) }
    }

    /// Queues `msg` if a message at `log_level` passes the logger's level.
    /// A message must be shorter than the buffer.
    pub fn log(&mut self, log_level: LogLevel, msg: &[u8])
        requires
            old(self).wf(),
            msg@.len() < BUF_LEN,
        ensures
            final(self).wf(),
            final(self).level() == old(self).level(),
            final(self).pending() == if rank(old(self).level()) <= rank(log_level) {
                keep_last(old(self).pending() + msg@, BUF_LEN - 1)
            } else {
                old(self).pending()
            },
    {
        if log_level.should_log(&self.log_level) {
            let ghost start = self.buf@;
            proof {
                self.buf.lemma_len_bound();
            }
            assert(keep_last(start + msg@.subrange(0, 0), BUF_LEN - 1) == start) by {
                assert(start + msg@.subrange(0, 0) =~= start);
            }
            let mut i: usize = 0;
            while i < msg.len()
                invariant
                    self.wf(),
                    self.log_level == old(self).log_level,
                    start == old(self).pending(),
                    i <= msg@.len(),
                    self.buf@ == keep_last(start + msg@.subrange(0, i as int), BUF_LEN - 1),
                decreases msg@.len() - i,
            {
                let ghost h = start + msg@.subrange(0, i as int);
                self.buf.write(msg[i]);
                proof {
                    lemma_keeps_newest(h, msg@[i as int], BUF_LEN - 1);
                    assert(h.push(msg@[i as int]) =~= start + msg@.subrange(0, i + 1));
                }
                i = i + 1;
            }
            assert(msg@.subrange(0, msg@.len() as int) =~= msg@);
        }
    }

    /// Takes every pending byte, oldest first, to be sent out.
    pub fn flush(&mut self) -> (r: Vec<u8>)
        requires
            old(self).wf(),
        ensures
            final(self).wf(),
            final(self).level() == old(self).level(),
            r@ == old(self).pending(),
            final(self).pending() == Seq::<u8>::empty(),
    {
        let mut r: Vec<u8> = Vec::new();
        loop
            invariant
                self.wf(),
                self.log_level == old(self).log_level,
                r@ + self.buf@ == old(self).pending(),
            decreases self.buf@.len(),
        {
            let ghost before = self.buf@;
            match self.buf.read() {
                Some(b) => {
                    r.push(b);
                    assert(r@ + self.buf@ =~= old(self).pending()) by {
                        assert(before =~= seq![b] + before.drop_first());
                    }
                },
                None => {
                    assert(r@ + self.buf@ =~= r@);
                    return r;
                },
            }
        }
    }
}

} // verus!
