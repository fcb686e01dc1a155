use vstd::prelude::*;
use vstd::string::StringExecFns;
use vstd::utf8::encode_utf8;

verus! {

/// Why a write into a `FmtBuf` was refused: it would not fit.
#[derive(Clone, Copy, Debug, PartialEq, Eq)]
pub struct FmtError;

/// A text buffer with a fixed capacity in bytes, for labels that must not
/// allocate beyond a bound.
pub struct FmtBuf {
    text: String,
    capacity: usize,
}

proof fn lemma_encode_concat(a: Seq<char>, b: Seq<char>)
    ensures
        encode_utf8(a + b) == encode_utf8(a) + encode_utf8(b),
    decreases a.len(),
{
    if a.len() == 0 {
        assert(a + b =~= b);
        assert(encode_utf8(a) =~= Seq::<u8>::empty());
        assert(encode_utf8(a) + encode_utf8(b) =~= encode_utf8(b));
    } else {
        lemma_encode_concat(a.drop_first(), b);
        assert((a + b).drop_first() =~= a.drop_first() + b);
        assert((a + b)[0] == a[0]);
        let s = vstd::utf8::encode_scalar(a[0] as u32);
        assert(encode_utf8(a + b) == s + encode_utf8(a.drop_first() + b));
        assert(encode_utf8(a) == s + encode_utf8(a.drop_first()));
        assert(s + (encode_utf8(a.drop_first()) + encode_utf8(b)) =~= (s + encode_utf8(
            a.drop_first(),
        )) + encode_utf8(b));
    }
}

impl FmtBuf {
    /// The text written so far.
    pub closed spec fn view(&self) -> Seq<char> {
        self.text@
    }

    /// Most bytes the buffer holds.
    pub closed spec fn capacity(&self) -> nat {
        self.capacity as nat
    }

    pub closed spec fn wf(&self) -> bool {
        encode_utf8(self.text@).len() <= self.capacity
    }

    /// An empty buffer that holds at most `capacity` bytes.
    pub fn new(capacity: usize) -> (r: FmtBuf)
        ensures
            r.wf(),
            r@ == Seq::<char>::empty(),
            r.capacity() == capacity,
    {
        let r = FmtBuf { text: String::new(), capacity };
        proof {
            assert(encode_utf8(r.text@) =~= Seq::<u8>::empty());
        }
        r
    }

    /// Appends `s` when its UTF-8 bytes fit in what is left of the capacity;
    /// otherwise leaves the buffer as it is and fails.
    pub fn write_str(&mut self, s: &str) -> (r: Result<(), FmtError>)
        requires
            old(self).wf(),
        ensures
            final(self).wf(),
            final(self).capacity() == old(self).capacity(),
            r is Ok <==> encode_utf8(old(self)@).len() + encode_utf8(s@).len() <= old(
                self,
            ).capacity(),
            r is Ok ==> final(self)@ == old(self)@ + s@,
            r is Err ==> final(self)@ == old(self)@,
    {
        let t = self.text.as_str();
        let used = t.len();
        let extra = s.as_bytes().len();
        proof {
            assert(t@ == self.text@);
            assert(used == encode_utf8(self.text@).len());
            assert(extra == encode_utf8(s@).len());
        }
        if extra > self.capacity - used {
            return Err(FmtError);
        }
        proof {
            lemma_encode_concat(self.text@, s@);
        }
        self.text.append(s);
        Ok(())
    }

    /// The text written so far.
    pub fn as_str(&self) -> (r: &str)
        ensures
            r@ == self@,
    {
        self.text.as_str()
    }
}

} // verus!
