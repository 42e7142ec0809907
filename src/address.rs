use vstd::prelude::*;
use vstd::string::*;

verus! {

/// An opaque byte string identifying an actor: an admin, a poll's creator or a voter.
#[derive(Debug)]
pub struct Address(pub Vec<u8>);

impl View for Address {
    type V = Seq<u8>;

    open spec fn view(&self) -> Seq<u8> {
        self.0@
    }
}

impl Clone for Address {
    fn clone(&self) -> (r: Self)
        ensures
            r@ == self@,
    {
        Address(self.0.clone())
    }
}

impl PartialEq for Address {
    fn eq(&self, o: &Address) -> (r: bool)
        ensures
            r == (self@ == o@),
    {
        let n = self.0.len();
        if n != o.0.len() {
            return false;
        }
        let mut i: usize = 0;
        while i < n
            invariant
                n == self@.len(),
                n == o@.len(),
                i <= n,
                self@.subrange(0, i as int) == o@.subrange(0, i as int),
            decreases n - i,
        {
            if self.0[i] != o.0[i] {
                assert(self@[i as int] != o@[i as int]);
                return false;
            }
            assert(self@.subrange(0, i + 1) == self@.subrange(0, i as int).push(self@[i as int]));
            assert(o@.subrange(0, i + 1) == o@.subrange(0, i as int).push(o@[i as int]));
            i += 1;
        }
        assert(self@ == self@.subrange(0, n as int));
        assert(o@ == o@.subrange(0, n as int));
        true
    }
}

impl vstd::std_specs::cmp::PartialEqSpecImpl for Address {
    open spec fn obeys_eq_spec() -> bool {
        true
    }

    open spec fn eq_spec(&self, o: &Address) -> bool {
        self@ == o@
    }
}

impl Eq for Address {
}

/// The lowercase hexadecimal digit of a value below sixteen.
pub open spec fn hex_digit(n: u8) -> char {
    if n < 10 {
        (('0' as u8) + n) as char
    } else {
        (('a' as u8) + (n - 10)) as char
    }
}

/// Two lowercase hexadecimal digits for each byte, the high half of the byte first.
pub open spec fn hex_of(b: Seq<u8>) -> Seq<char>
    decreases b.len(),
{
    if b.len() == 0 {
        Seq::empty()
    } else {
        hex_of(b.drop_last()) + seq![hex_digit(b.last() / 16), hex_digit(b.last() % 16)]
    }
}

/// Relies on hex::encode: each byte becomes two lowercase digits, the high half first.
#[verifier::external_body]
fn encode_hex(b: &Vec<u8>) -> (r: String)
    ensures
        r@ == hex_of(b@),
{
    hex::encode(b)
}

impl Address {
    /// The address as `0x` followed by the lowercase hexadecimal digits of its bytes.
    pub fn to_hex_string(&self) -> (r: String)
        ensures
            r@ == seq!['0', 'x'] + hex_of(self@),
    {
        let digits = encode_hex(&self.0);
        let mut s = String::from_str("0x");
        s.append(digits.as_str());
        proof {
            reveal_strlit("0x");
        }
        s
    }
}

} // verus!
