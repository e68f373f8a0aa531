//! JSON Pointer segment escaping (RFC 6901): `~` becomes `~0` and `/`
//! becomes `~1`.

use vstd::prelude::*;

use crate::strutil::push_char;

verus! {

/// The escape of one character.
pub open spec fn escape_char(c: char) -> Seq<char> {
    if c == '~' {
        seq!['~', '0']
    } else if c == '/' {
        seq!['~', '1']
    } else {
        seq![c]
    }
}

/// The escaped segment text.
pub open spec fn spec_escape(s: Seq<char>) -> Seq<char>
    decreases s.len(),
{
    if s.len() == 0 {
        Seq::empty()
    } else {
        escape_char(s[0]) + spec_escape(s.drop_first())
    }
}

/// Escapes a segment for use in a JSON Pointer.
#[verifier::loop_isolation(false)]
pub fn escape_pointer_segment(segment: &str) -> (r: String)
    ensures
        r@ == spec_escape(segment@),
{
    let mut out = String::new();
    let n = segment.unicode_len();
    let mut i: usize = 0;
    proof {
        assert(segment@.skip(0) =~= segment@);
    }
    while i < n
        invariant
            i <= n,
            out@ + spec_escape(segment@.skip(i as int)) == spec_escape(segment@),
        decreases n - i,
    {
        proof {
            assert(segment@.skip(i as int)[0] == segment@[i as int]);
            assert(segment@.skip(i as int).drop_first() =~= segment@.skip(i as int + 1));
        }
        let ghost before = out@;
        let c = segment.get_char(i);
        if c == '~' {
            push_char(&mut out, '~');
            push_char(&mut out, '0');
        } else if c == '/' {
            push_char(&mut out, '~');
            push_char(&mut out, '1');
        } else {
            push_char(&mut out, c);
        }
        proof {
            assert(out@ =~= before + escape_char(segment@[i as int]));
            assert(out@ + spec_escape(segment@.skip(i as int + 1)) =~= before + spec_escape(
                segment@.skip(i as int),
            ));
        }
        i = i + 1;
    }
    proof {
        assert(spec_escape(segment@.skip(n as int)) =~= Seq::<char>::empty());
        assert(out@ =~= out@ + spec_escape(segment@.skip(n as int)));
    }
    out
}

} // verus!
