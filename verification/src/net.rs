use vstd::prelude::*;
use vstd::std_specs::iter::IteratorSpec;

verus! {

/// An IPv4 network in CIDR form: a base address and a prefix length in bits.
#[derive(Clone, Copy, Debug)]
pub struct CidrV4 {
    pub addr: u32,
    pub prefix: u8,
}

impl CidrV4 {
    pub open spec fn wf(self) -> bool {
        self.prefix <= 32
    }

    /// Whether `ip` lies inside the network: the top `prefix` bits agree.
    pub open spec fn spec_contains(self, ip: u32) -> bool {
        if self.prefix == 0 {
            true
        } else {
            (ip >> (32 - self.prefix) as u32) == (self.addr >> (32 - self.prefix) as u32)
        }
    }

    pub fn contains(&self, ip: u32) -> (r: bool)
        requires
            self.wf(),
        ensures
            r == self.spec_contains(ip),
    {
        if self.prefix == 0 {
            true
        } else {
            let sh: u32 = 32 - (self.prefix as u32);
            (ip >> sh) == (self.addr >> sh)
        }
    }
}

/// Digits are recognised by code point, as `str::parse` for addresses does.
pub open spec fn is_digit(c: char) -> bool {
    48 <= c as u32 && c as u32 <= 57
}

pub open spec fn digit_val(c: char) -> int {
    c as u32 - 48
}

/// One step of the dotted-quad scanner. The state is (octets completed,
/// value of the completed octets, current octet value, current octet digit
/// count); a first component of -1 marks a malformed input and absorbs.
pub open spec fn ipv4_step(st: (int, int, int, int), c: char) -> (int, int, int, int) {
    let (done, acc, val, len) = st;
    if done == -1 {
        (-1, 0, 0, 0)
    } else if c == '.' {
        if len == 0 || done >= 3 {
            (-1, 0, 0, 0)
        } else {
            (done + 1, acc * 256 + val, 0, 0)
        }
    } else if is_digit(c) {
        if len >= 1 && val == 0 {
            (-1, 0, 0, 0)
        } else if val * 10 + digit_val(c) > 255 {
            (-1, 0, 0, 0)
        } else {
            (done, acc, val * 10 + digit_val(c), len + 1)
        }
    } else {
        (-1, 0, 0, 0)
    }
}

pub open spec fn ipv4_fold(s: Seq<char>) -> (int, int, int, int)
    decreases s.len(),
{
    if s.len() == 0 {
        (0, 0, 0, 0)
    } else {
        ipv4_step(ipv4_fold(s.drop_last()), s.last())
    }
}

/// The address denoted by a dotted-quad string without leading zeroes, as
/// `str::parse::<Ipv4Addr>` reads one, or `None` when the text is not one.
pub open spec fn parse_ipv4_spec(s: Seq<char>) -> Option<u32> {
    let st = ipv4_fold(s);
    if st.0 == 3 && st.3 > 0 {
        Some((st.1 * 256 + st.2) as u32)
    } else {
        None
    }
}

pub fn parse_ipv4(s: &str) -> (r: Option<u32>)
    ensures
        r == parse_ipv4_spec(s@),
{
    broadcast use vstd::string::next_postcondition;
    broadcast use vstd::string::axiom_spec_iter;

    let mut done: u32 = 0;
    let mut acc: u32 = 0;
    let mut val: u32 = 0;
    let mut len: u32 = 0;
    let mut failed = false;
    let mut it = s.chars();
    let ghost mut seen: Seq<char> = Seq::empty();
    proof {
        assert(seen + it.remaining() =~= s@);
    }
    loop
        invariant
            it.obeys_prophetic_iter_laws(),
            seen + it.remaining() == s@,
            failed ==> ipv4_fold(seen).0 == -1,
            !failed ==> ipv4_fold(seen) == (done as int, acc as int, val as int, len as int),
            !failed ==> done <= 3 && val <= 255 && acc <= 16777215,
            !failed ==> (done <= 2 ==> acc <= 65535),
            !failed ==> (done <= 1 ==> acc <= 255),
            !failed ==> (done == 0 ==> acc == 0),
            !failed ==> len <= 3 && (len == 2 ==> val >= 10) && (len == 3 ==> val >= 100),
            seen.len() <= s@.len(),
        ensures
            seen == s@,
            failed ==> ipv4_fold(seen).0 == -1,
            !failed ==> ipv4_fold(seen) == (done as int, acc as int, val as int, len as int),
            !failed ==> done <= 3 && val <= 255 && acc <= 16777215,
        decreases s@.len() - seen.len(),
    {
        let ghost old_it = it;
        let next = it.next();
        match next {
            None => {
                proof {
                    assert(old_it.remaining().len() == 0);
                    assert(seen + old_it.remaining() =~= seen);
                    assert(seen =~= s@);
                }
                break ;
            },
            Some(c) => {
                let ghost prev = seen;
                proof {
                    assert(old_it.remaining().len() > 0);
                    assert(c == old_it.remaining()[0]);
                    assert(it.remaining() == old_it.remaining().drop_first());
                    seen = seen.push(c);
                    assert(seen.drop_last() =~= prev);
                    assert(seen.last() == c);
                    assert(seen + it.remaining() =~= prev + old_it.remaining());
                    assert(ipv4_fold(seen) == ipv4_step(ipv4_fold(prev), c));
                }
                if failed {
                } else if c == '.' {
                    if len == 0 || done >= 3 {
                        failed = true;
                    } else {
                        done = done + 1;
                        acc = acc * 256 + val;
                        val = 0;
                        len = 0;
                    }
                } else {
                    let u = c as u32;
                    if u >= 48 && u <= 57 {
                        let d = u - 48;
                        proof {
                            assert(is_digit(c));
                            assert(digit_val(c) == d as int);
                        }
                        if (len >= 1 && val == 0) || val * 10 + d > 255 {
                            failed = true;
                        } else {
                            val = val * 10 + d;
                            len = len + 1;
                        }
                    } else {
                        proof {
                            assert(!is_digit(c));
                        }
                        failed = true;
                    }
                }
            },
        }
    }
    if !failed && done == 3 && len > 0 {
        Some(acc * 256 + val)
    } else {
        None
    }
}

} // verus!
