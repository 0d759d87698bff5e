use vstd::prelude::*;
use crate::bytes::copy_range;
use vstd::string::StringSliceAdditionalSpecFns;

verus! {

/// One `<type>=<value>` line of a session description.
#[derive(Debug, Clone, PartialEq, Eq)]
pub struct SdpField {
    pub kind: u8,
    pub value: Vec<u8>,
}

/// A session description: its fields in order.
#[derive(Debug, Clone, PartialEq, Eq)]
pub struct Sdp {
    pub fields: Vec<SdpField>,
}

/// Index of the first line feed at or after `o`, or the end of `s`.
pub open spec fn line_end(s: Seq<u8>, o: int) -> int
    decreases s.len() - o,
{
    if o < 0 || o >= s.len() {
        s.len() as int
    } else if s[o] == 0x0A {
        o
    } else {
        line_end(s, o + 1)
    }
}

/// The line from `o` to `e`, without a carriage return before the line feed.
pub open spec fn line_text(s: Seq<u8>, o: int, e: int) -> Seq<u8> {
    if e > o && s[e - 1] == 0x0D {
        s.subrange(o, e - 1)
    } else {
        s.subrange(o, e)
    }
}

/// A field line: a lower-case letter, `=`, then the value.
pub open spec fn is_field_line(l: Seq<u8>) -> bool {
    l.len() >= 2 && 0x61 <= l[0] <= 0x7A && l[1] == 0x3D
}

/// The fields from offset `o` on, as `(type, value)` pairs; empty lines are skipped and
/// any other line that is not a field line makes the whole text invalid.
pub open spec fn fields_from(s: Seq<u8>, o: int) -> Option<Seq<(u8, Seq<u8>)>>
    decreases s.len() - o,
{
    if o < 0 || o >= s.len() {
        Some(Seq::empty())
    } else {
        let e = line_end(s, o);
        let l = line_text(s, o, e);
        if e < o {
            None
        } else {
            let rest = if e >= s.len() {
                Some(Seq::empty())
            } else {
                fields_from(s, e + 1)
            };
            match rest {
                None => None,
                Some(rest) => if l.len() == 0 {
                    Some(rest)
                } else if is_field_line(l) {
                    Some(seq![(l[0], l.subrange(2, l.len() as int))] + rest)
                } else {
                    None
                },
            }
        }
    }
}

/// The description that `s` holds: its field lines, the first of them a `v=` line.
pub open spec fn sdp_of(s: Seq<u8>) -> Option<Seq<(u8, Seq<u8>)>> {
    match fields_from(s, 0) {
        Some(f) => if f.len() > 0 && f[0].0 == 0x76 {
            Some(f)
        } else {
            None
        },
        None => None,
    }
}

pub open spec fn field_view(f: SdpField) -> (u8, Seq<u8>) {
    (f.kind, f.value@)
}

impl View for Sdp {
    type V = Seq<(u8, Seq<u8>)>;

    open spec fn view(&self) -> Seq<(u8, Seq<u8>)> {
        Seq::new(self.fields@.len(), |i: int| field_view(self.fields@[i]))
    }
}

proof fn lemma_line_end_bounds(s: Seq<u8>, o: int)
    requires
        0 <= o <= s.len(),
    ensures
        o <= line_end(s, o) <= s.len(),
        line_end(s, o) < s.len() ==> s[line_end(s, o)] == 0x0A,
    decreases s.len() - o,
{
    if o < s.len() && s[o] != 0x0A {
        lemma_line_end_bounds(s, o + 1);
    }
}

fn find_line_end(s: &[u8], o: usize) -> (r: usize)
    requires
        o <= s@.len(),
    ensures
        r == line_end(s@, o as int),
{
    let mut e: usize = o;
    while e < s.len() && s[e] != 0x0A
        invariant
            o <= e <= s@.len(),
            line_end(s@, e as int) == line_end(s@, o as int),
        decreases s@.len() - e,
    {
        e = e + 1;
    }
    e
}

pub open spec fn prepend_fields(acc: Seq<(u8, Seq<u8>)>, r: Option<Seq<(u8, Seq<u8>)>>) -> Option<Seq<(u8, Seq<u8>)>> {
    match r {
        Some(rest) => Some(acc + rest),
        None => None,
    }
}

impl Sdp {
    /// Parses a session description; `None` if a non-empty line is not a field line or
    /// the first field is not the `v=` line.
    pub fn build(text: &str) -> (r: Option<Self>)
        ensures
            match r {
                Some(d) => sdp_of(text.spec_bytes()) == Some(d@),
                None => sdp_of(text.spec_bytes()).is_none(),
            },
    {
        let s = text.as_bytes();
        let mut acc: Vec<SdpField> = Vec::new();
        let ghost mut seen: Seq<(u8, Seq<u8>)> = Seq::empty();
        let mut o: usize = 0;
        while o < s.len()
            invariant
                o <= s@.len(),
                s@ == text.spec_bytes(),
                seen == Seq::new(acc@.len(), |i: int| field_view(acc@[i])),
                fields_from(s@, 0) == prepend_fields(seen, fields_from(s@, o as int)),
            decreases s@.len() - o,
        {
            let e = find_line_end(s, o);
            proof {
                lemma_line_end_bounds(s@, o as int);
            }
            let end: usize = if e > o && s[e - 1] == 0x0D {
                e - 1
            } else {
                e
            };
            let ghost l = line_text(s@, o as int, e as int);
            assert(l == s@.subrange(o as int, end as int));
            if end > o {
                if end - o < 2 || s[o] < 0x61 || s[o] > 0x7A || s[o + 1] != 0x3D {
                    proof {
                        assert(l.len() > 0 && !is_field_line(l));
                        assert(fields_from(s@, o as int) is None);
                    }
                    return None;
                }
                let value = copy_range(s, o + 2, end);
                proof {
                    assert(l.subrange(2, l.len() as int) =~= value@);
                    let rest_fields = if e >= s.len() {
                        Some(Seq::empty())
                    } else {
                        fields_from(s@, e + 1)
                    };
                    match rest_fields {
                        Some(rest) => {
                            assert(seen + (seq![(l[0], value@)] + rest) =~= seen.push((s@[o as int], value@)) + rest);
                        },
                        None => {},
                    }
                    seen = seen.push((s@[o as int], value@));
                }
                acc.push(SdpField { kind: s[o], value });
                proof {
                    assert(seen =~= Seq::new(acc@.len(), |i: int| field_view(acc@[i])));
                }
            }
            if e >= s.len() {
                o = s.len();
            } else {
                o = e + 1;
            }
        }
        proof {
            assert(seen + Seq::<(u8, Seq<u8>)>::empty() =~= seen);
        }
        if acc.len() == 0 || acc[0].kind != 0x76 {
            proof {
                if acc@.len() > 0 {
                    assert(seen[0] == field_view(acc@[0]));
                }
            }
            return None;
        }
        assert(seen[0] == field_view(acc@[0]));
        let r = Sdp { fields: acc };
        assert(r@ =~= seen);
        Some(r)
    }
}

} // verus!
