//! Command text handling.  A received message is trimmed and checked against
//! the control verbs (`kill` terminates the whole process, `quit` / `exit`
//! close only this session); a whitespace-only message is silently absorbed;
//! anything else is split into whitespace-delimited tokens, of which token 0
//! names the executable and the rest are its arguments.

use vstd::prelude::*;

verus! {

/// ASCII whitespace: space, tab, line feed, vertical tab, form feed,
/// carriage return.  Deliberately not Unicode whitespace: the control
/// verbs are ASCII, and a verb dressed in exotic whitespace is safer run
/// as a command (and refused by the shell) than honoured as a verb.
pub open spec fn is_space(b: u8) -> bool {
    b == 32 || (9 <= b && b <= 13)
}

/// Every byte of `s` is whitespace.
pub open spec fn all_space(s: Seq<u8>) -> bool {
    forall|m: int| 0 <= m < s.len() ==> is_space(s[m])
}

/// `s` without its leading whitespace.
pub open spec fn trim_front(s: Seq<u8>) -> Seq<u8>
    decreases s.len(),
{
    if s.len() > 0 && is_space(s[0]) {
        trim_front(s.skip(1))
    } else {
        s
    }
}

/// `s` without its trailing whitespace.
pub open spec fn trim_back(s: Seq<u8>) -> Seq<u8>
    decreases s.len(),
{
    if s.len() > 0 && is_space(s[s.len() - 1]) {
        trim_back(s.take(s.len() - 1))
    } else {
        s
    }
}

/// `s` without leading and trailing whitespace.
pub open spec fn trimmed(s: Seq<u8>) -> Seq<u8> {
    trim_back(trim_front(s))
}

/// The whitespace-delimited tokens of `s`, accumulating the word in
/// progress: a whitespace byte closes the current word, any other byte
/// extends it.
pub open spec fn tokens_rec(s: Seq<u8>, cur: Seq<u8>) -> Seq<Seq<u8>>
    decreases s.len(),
{
    if s.len() == 0 {
        if cur.len() > 0 {
            seq![cur]
        } else {
            Seq::empty()
        }
    } else if is_space(s[0]) {
        if cur.len() > 0 {
            seq![cur] + tokens_rec(s.skip(1), Seq::empty())
        } else {
            tokens_rec(s.skip(1), Seq::empty())
        }
    } else {
        tokens_rec(s.skip(1), cur.push(s[0]))
    }
}

/// The whitespace-delimited tokens of `s`.
pub open spec fn tokens_of(s: Seq<u8>) -> Seq<Seq<u8>> {
    tokens_rec(s, Seq::empty())
}

/// The three control verbs, as byte sequences: `kill`, `quit`, `exit`.
pub open spec fn kill_verb() -> Seq<u8> {
    seq![107u8, 105u8, 108u8, 108u8]
}

pub open spec fn quit_verb() -> Seq<u8> {
    seq![113u8, 117u8, 105u8, 116u8]
}

pub open spec fn exit_verb() -> Seq<u8> {
    seq![101u8, 120u8, 105u8, 116u8]
}

/// The fixed user-visible text sent when an executable cannot be started:
/// the bytes of `No such file or directory`.  Deliberately not the raw OS
/// error, so that path details do not leak by default.
pub open spec fn spawn_failed_text() -> Seq<u8> {
    seq![
        78u8, 111u8, 32u8, 115u8, 117u8, 99u8, 104u8, 32u8, 102u8, 105u8, 108u8, 101u8, 32u8,
        111u8, 114u8, 32u8, 100u8, 105u8, 114u8, 101u8, 99u8, 116u8, 111u8, 114u8, 121u8,
    ]
}

/// The spawn-failure text as a byte vector.
pub fn spawn_failed_message() -> (r: Vec<u8>)
    ensures
        r@ == spawn_failed_text(),
{
    let v: Vec<u8> = vec![
        78u8, 111u8, 32u8, 115u8, 117u8, 99u8, 104u8, 32u8, 102u8, 105u8, 108u8, 101u8, 32u8,
        111u8, 114u8, 32u8, 100u8, 105u8, 114u8, 101u8, 99u8, 116u8, 111u8, 114u8, 121u8,
    ];
    proof {
        assert(v@ =~= spawn_failed_text());
    }
    v
}

/// A UTF-8 continuation byte.
pub open spec fn is_cont_byte(b: u8) -> bool {
    128 <= b && b <= 191
}

/// `s` is well-formed UTF-8: ASCII, two-byte forms from `C2`, the
/// constrained three- and four-byte forms — no overlong encodings, no
/// surrogates, nothing above the last code point.
pub open spec fn is_utf8(s: Seq<u8>) -> bool
    decreases s.len(),
{
    if s.len() == 0 {
        true
    } else if s[0] <= 127 {
        is_utf8(s.skip(1))
    } else if 194 <= s[0] && s[0] <= 223 {
        s.len() >= 2 && is_cont_byte(s[1]) && is_utf8(s.skip(2))
    } else if s[0] == 224 {
        s.len() >= 3 && 160 <= s[1] && s[1] <= 191 && is_cont_byte(s[2]) && is_utf8(s.skip(3))
    } else if (225 <= s[0] && s[0] <= 236) || s[0] == 238 || s[0] == 239 {
        s.len() >= 3 && is_cont_byte(s[1]) && is_cont_byte(s[2]) && is_utf8(s.skip(3))
    } else if s[0] == 237 {
        s.len() >= 3 && 128 <= s[1] && s[1] <= 159 && is_cont_byte(s[2]) && is_utf8(s.skip(3))
    } else if s[0] == 240 {
        s.len() >= 4 && 144 <= s[1] && s[1] <= 191 && is_cont_byte(s[2]) && is_cont_byte(s[3])
            && is_utf8(s.skip(4))
    } else if 241 <= s[0] && s[0] <= 243 {
        s.len() >= 4 && is_cont_byte(s[1]) && is_cont_byte(s[2]) && is_cont_byte(s[3]) && is_utf8(
            s.skip(4),
        )
    } else if s[0] == 244 {
        s.len() >= 4 && 128 <= s[1] && s[1] <= 143 && is_cont_byte(s[2]) && is_cont_byte(s[3])
            && is_utf8(s.skip(4))
    } else {
        false
    }
}

fn cont_at(s: &Vec<u8>, m: usize) -> (r: bool)
    requires
        m < s@.len(),
    ensures
        r == is_cont_byte(s@[m as int]),
{
    128 <= s[m] && s[m] <= 191
}

/// Checks that a message is well-formed UTF-8, byte by byte.
pub fn validate_utf8(s: &Vec<u8>) -> (r: bool)
    ensures
        r == is_utf8(s@),
{
    let n = s.len();
    let mut i: usize = 0;
    proof {
        assert(s@.skip(0) =~= s@);
    }
    while i < n
        invariant
            0 <= i <= n == s@.len(),
            is_utf8(s@) == is_utf8(s@.skip(i as int)),
        decreases n - i,
    {
        let ghost rest = s@.skip(i as int);
        proof {
            assert(rest[0] == s@[i as int]);
            if rest.len() >= 2 {
                assert(rest[1] == s@[i + 1]);
            }
            if rest.len() >= 3 {
                assert(rest[2] == s@[i + 2]);
            }
            if rest.len() >= 4 {
                assert(rest[3] == s@[i + 3]);
            }
        }
        let b0 = s[i];
        let step: usize = if b0 <= 127 {
            1
        } else if 194 <= b0 && b0 <= 223 {
            if n - i < 2 || !cont_at(s, i + 1) {
                return false;
            }
            2
        } else if b0 == 224 {
            if n - i < 3 || !(160 <= s[i + 1] && s[i + 1] <= 191) || !cont_at(s, i + 2) {
                return false;
            }
            3
        } else if (225 <= b0 && b0 <= 236) || b0 == 238 || b0 == 239 {
            if n - i < 3 || !cont_at(s, i + 1) || !cont_at(s, i + 2) {
                return false;
            }
            3
        } else if b0 == 237 {
            if n - i < 3 || !(128 <= s[i + 1] && s[i + 1] <= 159) || !cont_at(s, i + 2) {
                return false;
            }
            3
        } else if b0 == 240 {
            if n - i < 4 || !(144 <= s[i + 1] && s[i + 1] <= 191) || !cont_at(s, i + 2)
                || !cont_at(s, i + 3) {
                return false;
            }
            4
        } else if 241 <= b0 && b0 <= 243 {
            if n - i < 4 || !cont_at(s, i + 1) || !cont_at(s, i + 2) || !cont_at(s, i + 3) {
                return false;
            }
            4
        } else if b0 == 244 {
            if n - i < 4 || !(128 <= s[i + 1] && s[i + 1] <= 143) || !cont_at(s, i + 2)
                || !cont_at(s, i + 3) {
                return false;
            }
            4
        } else {
            return false;
        };
        proof {
            assert(rest.skip(step as int) =~= s@.skip(i + step));
        }
        i = i + step;
    }
    proof {
        assert(s@.skip(n as int) =~= Seq::<u8>::empty());
    }
    true
}

/// The message, after trimming, is exactly the `kill` verb.
pub open spec fn is_kill_message(msg: Seq<u8>) -> bool {
    trimmed(msg) == kill_verb()
}

/// The message, after trimming, is exactly `quit` or `exit`.
pub open spec fn is_quit_message(msg: Seq<u8>) -> bool {
    trimmed(msg) == quit_verb() || trimmed(msg) == exit_verb()
}

/// The message trims to nothing.
pub open spec fn is_empty_message(msg: Seq<u8>) -> bool {
    trimmed(msg).len() == 0
}

fn is_space_byte(b: u8) -> (r: bool)
    ensures
        r == is_space(b),
{
    b == 32 || (9 <= b && b <= 13)
}

fn space_at(s: &Vec<u8>, i: usize) -> (r: bool)
    requires
        i < s@.len(),
    ensures
        r == is_space(s@[i as int]),
{
    is_space_byte(s[i])
}

proof fn lemma_trim_front_skip(s: Seq<u8>, i: int)
    requires
        0 <= i <= s.len(),
        forall|m: int| 0 <= m < i ==> is_space(s[m]),
    ensures
        trim_front(s) == trim_front(s.skip(i)),
    decreases i,
{
    if i > 0 {
        assert(is_space(s[0]));
        lemma_trim_front_skip(s.skip(1), i - 1);
        assert(s.skip(1).skip(i - 1) =~= s.skip(i));
    } else {
        assert(s.skip(0) =~= s);
    }
}

proof fn lemma_trim_back_take(t: Seq<u8>, j: int)
    requires
        0 <= j <= t.len(),
        forall|m: int| j <= m < t.len() ==> is_space(t[m]),
    ensures
        trim_back(t) == trim_back(t.take(j)),
    decreases t.len() - j,
{
    if j < t.len() {
        assert(is_space(t[t.len() - 1]));
        lemma_trim_back_take(t.take(t.len() - 1), j);
        assert(t.take(t.len() - 1).take(j) =~= t.take(j));
    } else {
        assert(t.take(t.len() as int) =~= t);
    }
}

/// Trims leading and trailing whitespace from a message.
pub fn trim_bytes(s: &Vec<u8>) -> (r: Vec<u8>)
    ensures
        r@ == trimmed(s@),
{
    let n = s.len();
    let mut i: usize = 0;
    while i < n && space_at(s, i)
        invariant
            n == s@.len(),
            0 <= i <= n,
            forall|m: int| 0 <= m < i ==> is_space(s@[m]),
        decreases n - i,
    {
        i = i + 1;
    }
    proof {
        lemma_trim_front_skip(s@, i as int);
        if i < n {
            assert(s@.skip(i as int)[0] == s@[i as int]);
        }
        assert(trim_front(s@) == s@.skip(i as int));
    }
    let mut j: usize = n;
    while j > i && space_at(s, j - 1)
        invariant
            n == s@.len(),
            0 <= i <= j <= n,
            forall|m: int| j <= m < n ==> is_space(s@[m]),
        decreases j,
    {
        j = j - 1;
    }
    proof {
        let t = s@.skip(i as int);
        assert(forall|m: int| j - i <= m < t.len() ==> is_space(#[trigger] t[m]));
        lemma_trim_back_take(t, j - i);
        assert(t.take(j - i) =~= s@.subrange(i as int, j as int));
        if j > i {
            assert(t.take(j - i)[j - i - 1] == s@[j - 1]);
        }
        assert(trim_back(t) == s@.subrange(i as int, j as int));
    }
    let mut out: Vec<u8> = Vec::new();
    let mut k: usize = i;
    while k < j
        invariant
            n == s@.len(),
            0 <= i <= k <= j <= n,
            out@ == s@.subrange(i as int, k as int),
        decreases j - k,
    {
        out.push(s[k]);
        proof {
            assert(s@.subrange(i as int, k + 1) =~= s@.subrange(i as int, k as int).push(
                s@[k as int],
            ));
        }
        k = k + 1;
    }
    out
}

/// Splits a message into its whitespace-delimited tokens.
pub fn split_tokens(s: &Vec<u8>) -> (r: Vec<Vec<u8>>)
    ensures
        r@.map_values(|t: Vec<u8>| t@) == tokens_of(s@),
{
    let n = s.len();
    let mut out: Vec<Vec<u8>> = Vec::new();
    let mut cur: Vec<u8> = Vec::new();
    let mut k: usize = 0;
    proof {
        assert(s@.skip(0) =~= s@);
        assert(out@.map_values(|t: Vec<u8>| t@) =~= Seq::<Seq<u8>>::empty());
        assert(Seq::<Seq<u8>>::empty() + tokens_rec(s@, cur@) =~= tokens_rec(s@, cur@));
    }
    while k < n
        invariant
            n == s@.len(),
            0 <= k <= n,
            tokens_of(s@) == out@.map_values(|t: Vec<u8>| t@) + tokens_rec(
                s@.skip(k as int),
                cur@,
            ),
        decreases n - k,
    {
        let rest = Ghost(s@.skip(k as int));
        proof {
            assert(rest@[0] == s@[k as int]);
            assert(rest@.skip(1) =~= s@.skip(k + 1));
        }
        if space_at(s, k) {
            if cur.len() > 0 {
                proof {
                    assert(tokens_rec(rest@, cur@) == seq![cur@] + tokens_rec(
                        s@.skip(k + 1),
                        Seq::<u8>::empty(),
                    ));
                }
                let ghost old_out = out@;
                let ghost old_cur = cur@;
                out.push(cur);
                cur = Vec::new();
                proof {
                    assert(out@.map_values(|t: Vec<u8>| t@) =~= old_out.map_values(
                        |t: Vec<u8>| t@,
                    ).push(old_cur));
                    assert(old_out.map_values(|t: Vec<u8>| t@) + (seq![old_cur] + tokens_rec(
                        s@.skip(k + 1),
                        Seq::<u8>::empty(),
                    )) =~= out@.map_values(|t: Vec<u8>| t@) + tokens_rec(
                        s@.skip(k + 1),
                        Seq::<u8>::empty(),
                    ));
                    assert(cur@ =~= Seq::<u8>::empty());
                }
            } else {
                proof {
                    assert(cur@ =~= Seq::<u8>::empty());
                    assert(tokens_rec(rest@, cur@) == tokens_rec(s@.skip(k + 1), cur@));
                }
            }
        } else {
            let ghost old_cur = cur@;
            cur.push(s[k]);
            proof {
                assert(cur@ == old_cur.push(s@[k as int]));
                assert(tokens_rec(rest@, old_cur) == tokens_rec(s@.skip(k + 1), cur@));
            }
        }
        k = k + 1;
    }
    proof {
        assert(s@.skip(n as int) =~= Seq::<u8>::empty());
    }
    if cur.len() > 0 {
        let ghost old_out = out@;
        let ghost old_cur = cur@;
        out.push(cur);
        proof {
            assert(tokens_rec(Seq::<u8>::empty(), old_cur) == seq![old_cur]);
            assert(out@.map_values(|t: Vec<u8>| t@) =~= old_out.map_values(|t: Vec<u8>| t@).push(
                old_cur,
            ));
            assert(old_out.map_values(|t: Vec<u8>| t@) + seq![old_cur] =~= out@.map_values(
                |t: Vec<u8>| t@,
            ));
        }
    } else {
        proof {
            assert(tokens_rec(Seq::<u8>::empty(), cur@) =~= Seq::<Seq<u8>>::empty());
            assert(out@.map_values(|t: Vec<u8>| t@) + Seq::<Seq<u8>>::empty() =~= out@.map_values(
                |t: Vec<u8>| t@,
            ));
        }
    }
    out
}

proof fn lemma_all_space_skip1(s: Seq<u8>)
    requires
        s.len() > 0,
        is_space(s[0]),
    ensures
        all_space(s) <==> all_space(s.skip(1)),
{
    if all_space(s) {
        assert forall|m: int| 0 <= m < s.skip(1).len() implies is_space(s.skip(1)[m]) by {
            assert(s.skip(1)[m] == s[m + 1]);
        }
    }
    if all_space(s.skip(1)) {
        assert forall|m: int| 0 <= m < s.len() implies is_space(s[m]) by {
            if m >= 1 {
                assert(s[m] == s.skip(1)[m - 1]);
            }
        }
    }
}

proof fn lemma_all_space_drop_last(s: Seq<u8>)
    requires
        s.len() > 0,
        is_space(s[s.len() - 1]),
    ensures
        all_space(s) <==> all_space(s.take(s.len() - 1)),
{
    let t = s.take(s.len() - 1);
    if all_space(s) {
        assert forall|m: int| 0 <= m < t.len() implies is_space(t[m]) by {
            assert(t[m] == s[m]);
        }
    }
    if all_space(t) {
        assert forall|m: int| 0 <= m < s.len() implies is_space(s[m]) by {
            if m < s.len() - 1 {
                assert(s[m] == t[m]);
            }
        }
    }
}

proof fn lemma_trim_back_all_space(s: Seq<u8>)
    ensures
        trim_back(s).len() == 0 <==> all_space(s),
    decreases s.len(),
{
    if s.len() > 0 && is_space(s[s.len() - 1]) {
        lemma_trim_back_all_space(s.take(s.len() - 1));
        lemma_all_space_drop_last(s);
    }
}

proof fn lemma_trim_front_space_equiv(s: Seq<u8>)
    ensures
        all_space(trim_front(s)) <==> all_space(s),
    decreases s.len(),
{
    if s.len() > 0 && is_space(s[0]) {
        lemma_trim_front_space_equiv(s.skip(1));
        lemma_all_space_skip1(s);
    }
}

/// A message trims to nothing exactly when every byte of it is whitespace.
pub proof fn lemma_empty_message_is_all_space(s: Seq<u8>)
    ensures
        is_empty_message(s) <==> all_space(s),
{
    lemma_trim_back_all_space(trim_front(s));
    lemma_trim_front_space_equiv(s);
}

proof fn lemma_tokens_rec_empty(s: Seq<u8>, cur: Seq<u8>)
    ensures
        tokens_rec(s, cur).len() == 0 <==> (all_space(s) && cur.len() == 0),
    decreases s.len(),
{
    if s.len() > 0 {
        if is_space(s[0]) {
            lemma_tokens_rec_empty(s.skip(1), Seq::empty());
            lemma_all_space_skip1(s);
        } else {
            lemma_tokens_rec_empty(s.skip(1), cur.push(s[0]));
            assert(!all_space(s));
        }
    }
}

/// A message has no tokens exactly when it trims to nothing: a
/// whitespace-only line never reaches the executor.
pub proof fn lemma_no_tokens_iff_empty(s: Seq<u8>)
    ensures
        tokens_of(s).len() == 0 <==> is_empty_message(s),
{
    lemma_tokens_rec_empty(s, Seq::empty());
    lemma_empty_message_is_all_space(s);
}

/// Compares a message against a four-byte verb.
fn bytes_eq4(t: &Vec<u8>, b0: u8, b1: u8, b2: u8, b3: u8) -> (r: bool)
    ensures
        r == (t@ == seq![b0, b1, b2, b3]),
{
    if t.len() != 4 {
        false
    } else {
        let r = t[0] == b0 && t[1] == b1 && t[2] == b2 && t[3] == b3;
        proof {
            if r {
                assert(t@ =~= seq![b0, b1, b2, b3]);
            }
        }
        r
    }
}

/// What a received message means to the session controller.
pub enum MessageClass {
    /// The `kill` verb: terminate the whole local process.
    Kill,
    /// The `quit` or `exit` verb: close only this session.
    Quit,
    /// A whitespace-only message: no reply, no executor.
    Empty,
    /// A command to execute: token 0 names the executable.
    Command { tokens: Vec<Vec<u8>> },
}

/// Trims a message and classifies it: control verb, empty, or command.
/// Exactly the non-verb, non-empty messages become commands, and a command
/// always carries at least one token.
pub fn classify_message(msg: &Vec<u8>) -> (r: MessageClass)
    ensures
        (r is Kill) == is_kill_message(msg@),
        (r is Quit) == is_quit_message(msg@),
        (r is Empty) == is_empty_message(msg@),
        (r is Command) == (!is_kill_message(msg@) && !is_quit_message(msg@)
            && !is_empty_message(msg@)),
        r matches MessageClass::Command { tokens } ==> tokens@.map_values(|t: Vec<u8>| t@)
            == tokens_of(msg@) && tokens@.len() > 0,
{
    let t = trim_bytes(msg);
    if bytes_eq4(&t, 107, 105, 108, 108) {
        MessageClass::Kill
    } else if bytes_eq4(&t, 113, 117, 105, 116) {
        MessageClass::Quit
    } else if bytes_eq4(&t, 101, 120, 105, 116) {
        MessageClass::Quit
    } else if t.len() == 0 {
        MessageClass::Empty
    } else {
        let tokens = split_tokens(msg);
        proof {
            lemma_no_tokens_iff_empty(msg@);
            assert(tokens@.len() == tokens@.map_values(|t2: Vec<u8>| t2@).len());
        }
        MessageClass::Command { tokens }
    }
}

} // verus!
