//! Cutting the bytes that the monitor sends into messages. The monitor ends
//! each message with a closing brace on a line of its own.

use vstd::prelude::*;

verus! {

/// The bytes that end a message: a line break, a closing brace, a line break.
pub open spec fn sentinel() -> Seq<u8> {
    seq![13u8, 10u8, 125u8, 13u8, 10u8]
}

/// `s` ends with the sentinel.
pub open spec fn ends_message(s: Seq<u8>) -> bool {
    s.len() >= 5 && s.subrange(s.len() - 5, s.len() as int) == sentinel()
}

/// The first `k` bytes of `s` are its first message: they end with the
/// sentinel and no shorter prefix does.
pub open spec fn first_message(s: Seq<u8>, k: int) -> bool {
    &&& 0 <= k <= s.len()
    &&& ends_message(s.take(k))
    &&& forall|j: int| 0 <= j < k ==> !ends_message(#[trigger] s.take(j))
}

/// No prefix of `s` is a message.
pub open spec fn no_message(s: Seq<u8>) -> bool {
    forall|j: int| 0 <= j <= s.len() ==> !ends_message(#[trigger] s.take(j))
}

/// The bytes received from the monitor and not yet handed out as a message.
#[derive(Debug, Clone)]
pub struct FrameReader {
    pending: Vec<u8>,
}

impl FrameReader {
    /// The bytes that wait.
    pub closed spec fn pending(&self) -> Seq<u8> {
        self.pending@
    }

    /// A reader that has received nothing.
    pub fn new() -> (out: Self)
        ensures
            out.pending() == Seq::<u8>::empty(),
    {
        FrameReader { pending: Vec::new() }
    }

    /// How many bytes wait.
    pub fn len(&self) -> (n: usize)
        ensures
            n == self.pending().len(),
    {
        self.pending.len()
    }

    /// The bytes that wait.
    pub fn buffered(&self) -> (out: Vec<u8>)
        ensures
            out@ == self.pending(),
    {
        self.pending.clone()
    }

    /// Takes in bytes that arrived.
    pub fn feed(&mut self, bytes: &Vec<u8>)
        ensures
            final(self).pending() == old(self).pending() + bytes@,
    {
        let mut i: usize = 0;
        assert(bytes@.take(0) =~= Seq::<u8>::empty());
        assert(self.pending@ =~= old(self).pending@ + bytes@.take(0));
        while i < bytes.len()
            invariant
                i <= bytes.len(),
                self.pending@ == old(self).pending@ + bytes@.take(i as int),
            decreases bytes.len() - i,
        {
            self.pending.push(bytes[i]);
            assert(bytes@.take(i + 1) == bytes@.take(i as int).push(bytes@[i as int]));
            assert(self.pending@ =~= old(self).pending@ + bytes@.take(i + 1));
            i = i + 1;
        }
        assert(bytes@.take(i as int) == bytes@);
    }

    /// Where the first message that waits ends, if one is complete.
    fn message_end(&self) -> (out: Option<usize>)
        ensures
            match out {
                Some(k) => first_message(self.pending(), k as int),
                None => no_message(self.pending()),
            },
    {
        let n: usize = self.pending.len();
        let mut k: usize = 0;
        while k <= n
            invariant
                k <= n + 1,
                n == self.pending@.len(),
                forall|j: int| 0 <= j < k ==> !ends_message(#[trigger] self.pending@.take(j)),
            decreases n + 1 - k,
        {
            if k >= 5 && self.pending[k - 5] == 13 && self.pending[k - 4] == 10 && self.pending[k
                - 3] == 125 && self.pending[k - 2] == 13 && self.pending[k - 1] == 10 {
                proof {
                    let p = self.pending@.take(k as int);
                    assert(p.subrange(p.len() - 5, p.len() as int) =~= sentinel());
                }
                return Some(k);
            }
            proof {
                let p = self.pending@.take(k as int);
                if ends_message(p) {
                    let tail = p.subrange(p.len() - 5, p.len() as int);
                    assert(tail[0] == 13 && tail[1] == 10 && tail[2] == 125 && tail[3] == 13
                        && tail[4] == 10);
                }
            }
            if k == n {
                return None;
            }
            k = k + 1;
        }
        None
    }

    /// Hands out the first message that waits and keeps what follows it;
    /// where no message is complete yet, everything stays.
    pub fn next_frame(&mut self) -> (out: Option<Vec<u8>>)
        ensures
            match out {
                Some(frame) => {
                    &&& first_message(old(self).pending(), frame@.len() as int)
                    &&& frame@ == old(self).pending().take(frame@.len() as int)
                    &&& final(self).pending() == old(self).pending().skip(frame@.len() as int)
                },
                None => no_message(old(self).pending()) && final(self).pending() == old(
                    self,
                ).pending(),
            },
    {
        let n: usize = self.pending.len();
        let k: usize = match self.message_end() {
            Some(k) => k,
            None => {
                return None;
            },
        };
        let mut frame: Vec<u8> = Vec::new();
        let mut rest: Vec<u8> = Vec::new();
        let mut i: usize = 0;
        while i < n
            invariant
                i <= n,
                k <= n,
                n == self.pending@.len(),
                frame@ == self.pending@.take(if i < k { i as int } else { k as int }),
                rest@ == self.pending@.subrange(k as int, if i < k { k as int } else { i as int }),
            decreases n - i,
        {
            if i < k {
                frame.push(self.pending[i]);
                assert(frame@ =~= self.pending@.take(i + 1));
            } else {
                rest.push(self.pending[i]);
                assert(rest@ =~= self.pending@.subrange(k as int, i + 1));
            }
            i = i + 1;
        }
        assert(rest@ =~= self.pending@.skip(k as int));
        self.pending = rest;
        Some(frame)
    }
}

/// A message followed by any bytes is read back as exactly that message, and
/// the bytes behind it stay.
pub proof fn lemma_message_then_rest(message: Seq<u8>, rest: Seq<u8>)
    requires
        first_message(message, message.len() as int),
    ensures
        first_message(message + rest, message.len() as int),
        (message + rest).take(message.len() as int) == message,
        (message + rest).skip(message.len() as int) == rest,
{
    let whole = message + rest;
    assert(whole.take(message.len() as int) =~= message);
    assert(whole.skip(message.len() as int) =~= rest);
    assert(message.take(message.len() as int) == message);
    assert forall|j: int| 0 <= j < message.len() implies !ends_message(#[trigger] whole.take(j)) by {
        assert(whole.take(j) =~= message.take(j));
    }
}

} // verus!
