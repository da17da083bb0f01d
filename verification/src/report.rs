//! Shaping a failure message for display.
//!
//! Failure messages chain their causes with `": "`.  The dialog shows
//! each cause on a line of its own: every occurrence of `": "` becomes
//! `":\n"`, scanned left to right.

use vstd::prelude::*;
use vstd::string::*;

verus! {

/// The displayed form of a message: each `": "` turned into `":\n"`,
/// left to right.
pub open spec fn spec_dialog_message(s: Seq<char>) -> Seq<char>
    decreases s.len(),
{
    if s.len() < 2 {
        s
    } else if s[0] == ':' && s[1] == ' ' {
        seq![':', '\n'] + spec_dialog_message(s.skip(2))
    } else {
        seq![s[0]] + spec_dialog_message(s.skip(1))
    }
}

/// A stretch without a separator passes through unchanged.
proof fn lemma_dialog_no_sep(s: Seq<char>, a: int)
    requires
        0 <= a <= s.len(),
        forall|k: int| a <= k < s.len() - 1 ==> !(#[trigger] s[k] == ':' && s[k + 1] == ' '),
    ensures
        spec_dialog_message(s.skip(a)) == s.skip(a),
    decreases s.len() - a,
{
    let t = s.skip(a);
    if t.len() >= 2 {
        assert(t[0] == s[a] && t[1] == s[a + 1]);
        lemma_dialog_no_sep(s, a + 1);
        assert(t.skip(1) =~= s.skip(a + 1));
        assert(seq![t[0]] + s.skip(a + 1) =~= t);
    }
}

/// Up to the next separator, the message passes through unchanged.
proof fn lemma_dialog_advance(s: Seq<char>, a: int, i: int)
    requires
        0 <= a <= i <= s.len(),
        forall|k: int| a <= k < i ==> !(k + 1 < s.len() && #[trigger] s[k] == ':' && s[k + 1] == ' '),
    ensures
        spec_dialog_message(s.skip(a)) == s.subrange(a, i) + spec_dialog_message(s.skip(i)),
    decreases i - a,
{
    let t = s.skip(a);
    if a == i {
        assert(s.subrange(a, i) =~= Seq::<char>::empty());
        assert(s.subrange(a, i) + spec_dialog_message(s.skip(i)) =~= spec_dialog_message(
            s.skip(a),
        ));
    } else if t.len() < 2 {
        assert(i == s.len() && s.len() - a == 1);
        assert(s.skip(i) =~= Seq::<char>::empty());
        assert(s.subrange(a, i) =~= t);
        assert(s.subrange(a, i) + spec_dialog_message(s.skip(i)) =~= t);
    } else {
        assert(t[0] == s[a] && t[1] == s[a + 1]);
        assert(!(s[a] == ':' && s[a + 1] == ' '));
        lemma_dialog_advance(s, a + 1, i);
        assert(t.skip(1) =~= s.skip(a + 1));
        assert(seq![s[a]] + (s.subrange(a + 1, i) + spec_dialog_message(s.skip(i))) =~= s.subrange(
            a,
            i,
        ) + spec_dialog_message(s.skip(i)));
    }
}

/// Rewrites a failure message for the dialog: every `": "` becomes
/// `":\n"`, so each chained cause stands on a line of its own.
pub fn dialog_message(message: &str) -> (r: String)
    ensures
        r@ == spec_dialog_message(message@),
{
    let ghost s = message@;
    let n = message.unicode_len();
    let mut out = String::new();
    let mut seg_start: usize = 0;
    let mut i: usize = 0;
    proof {
        assert(s.skip(0) =~= s);
    }
    while n >= 2 && i < n - 1
        invariant
            s == message@,
            n == s.len(),
            seg_start <= i <= n,
            forall|k: int|
                seg_start <= k < i ==> !(k + 1 < s.len() && #[trigger] s[k] == ':' && s[k + 1]
                    == ' '),
            out@ + spec_dialog_message(s.skip(seg_start as int)) == spec_dialog_message(s),
        decreases n - i,
    {
        let c0 = message.get_char(i);
        let c1 = message.get_char(i + 1);
        if c0 == ':' && c1 == ' ' {
            let seg = message.substring_char(seg_start, i);
            out.append(seg);
            out.append(":\n");
            proof {
                reveal_strlit(":\n");
                lemma_dialog_advance(s, seg_start as int, i as int);
                let t = s.skip(i as int);
                assert(t[0] == ':' && t[1] == ' ');
                assert(t.skip(2) =~= s.skip(i as int + 2));
                assert((":\n")@ =~= seq![':', '\n']);
                assert(out@ + spec_dialog_message(s.skip(i as int + 2)) =~= spec_dialog_message(
                    s,
                ));
            }
            i = i + 2;
            seg_start = i;
        } else {
            i = i + 1;
        }
    }
    let seg = message.substring_char(seg_start, n);
    out.append(seg);
    proof {
        lemma_dialog_no_sep(s, seg_start as int);
        assert(s.subrange(seg_start as int, n as int) =~= s.skip(seg_start as int));
        assert(out@ =~= spec_dialog_message(s));
    }
    out
}

} // verus!
