//! What the log says of rewards and of how a session stands.

use vstd::prelude::*;
use vstd::string::*;

use crate::entropy::{base36_digit, digit_char};
use crate::protocol::Tally;
use crate::session::Share;
use crate::text::{chars_of, decimal, decimal_text, law_decimal_shape};

verus! {

/// How many characters of a long hash are shown at each of its ends.
pub const SHOWN_END: usize = 8;

/// Whether a text stays on one line.
pub open spec fn single_line(s: Seq<char>) -> bool {
    forall|i: int| 0 <= i < s.len() ==> #[trigger] s[i] != '\n' && s[i] != '\r'
}

/// The control characters.
pub open spec fn is_control(c: char) -> bool {
    c <= '\u{1f}' || '\u{7f}' <= c <= '\u{9f}'
}

/// A character as the log shows it: control characters and line separators are escaped, and so is
/// the backslash that escapes them.
pub open spec fn escaped_char(c: char) -> Seq<char> {
    if c == '\\' {
        seq!['\\', '\\']
    } else if c == '\n' {
        seq!['\\', 'n']
    } else if c == '\r' {
        seq!['\\', 'r']
    } else if c == '\t' {
        seq!['\\', 't']
    } else if c == '\u{2028}' {
        seq!['\\', 'u', '{', '2', '0', '2', '8', '}']
    } else if c == '\u{2029}' {
        seq!['\\', 'u', '{', '2', '0', '2', '9', '}']
    } else if is_control(c) {
        seq![
            '\\',
            'u',
            '{',
            base36_digit(c as nat / 16),
            base36_digit(c as nat % 16),
            '}',
        ]
    } else {
        seq![c]
    }
}

/// A text as the log shows it, on one line.
pub open spec fn escaped(s: Seq<char>) -> Seq<char>
    decreases s.len(),
{
    if s.len() == 0 {
        seq![]
    } else {
        escaped(s.drop_last()) + escaped_char(s.last())
    }
}

/// A hash as it is shown: escaped, and in the middle of a long one an ellipsis.
pub open spec fn elided(hash: Seq<char>) -> Seq<char> {
    if hash.len() <= 2 * SHOWN_END {
        escaped(hash)
    } else {
        escaped(hash.take(SHOWN_END as int)) + "…"@ + escaped(hash.skip(hash.len() - SHOWN_END))
    }
}

/// What is said of a reward.
pub open spec fn reward_text(
    amount: Seq<char>,
    shares: nat,
    tx_hash: Seq<char>,
    total: Seq<char>,
) -> Seq<char> {
    "reward +"@ + amount + " JAY (shares "@ + decimal(shares) + ", tx "@ + elided(tx_hash)
        + ") — running total "@ + total + " JAY"@
}

/// What a session has brought so far, besides the shares that the pool has judged. Amounts are
/// numerals of JAY.
pub struct Earnings {
    /// How many rewards there were.
    pub rewards: u64,
    /// The sum of the rewards.
    pub total: String,
    /// The last reward.
    pub last: String,
}

/// What is said of the share that was submitted last.
pub open spec fn last_share_text(share: Option<Share>) -> Seq<char> {
    match share {
        Some(share) => " | last_hash "@ + elided(share.hash@) + " nonce="@ + decimal(
            share.nonce as nat,
        ),
        None => Seq::empty(),
    }
}

/// What is said of the wallet's balance, a numeral of JAY.
pub open spec fn balance_text(balance: Option<String>) -> Seq<char> {
    match balance {
        Some(b) => " | balance "@ + b@ + " JAY"@,
        None => Seq::empty(),
    }
}

/// What is said of how a session stands.
pub open spec fn stats_text(
    seconds: nat,
    submitted: nat,
    tally: Tally,
    earnings: Earnings,
    balance: Option<String>,
    share: Option<Share>,
) -> Seq<char> {
    "[stats] up "@ + decimal(seconds) + "s | shares "@ + decimal(tally.accepted as nat) + "/"@
        + decimal(submitted) + " ok ("@ + decimal(tally.rejected as nat) + " rej) | rewards "@
        + decimal(earnings.rewards as nat) + " ("@ + earnings.total@ + " JAY, last "@
        + earnings.last@ + ")"@ + balance_text(balance) + last_share_text(share)
}

/// Writes a character for the log.
fn push_escaped(text: &mut String, c: char)
    ensures
        final(text)@ == old(text)@ + escaped_char(c),
{
    let code: u32 = c as u32;
    if c == '\\' {
        text.append("\\\\");
    } else if c == '\n' {
        text.append("\\n");
    } else if c == '\r' {
        text.append("\\r");
    } else if c == '\t' {
        text.append("\\t");
    } else if c == '\u{2028}' {
        text.append("\\u{2028}");
    } else if c == '\u{2029}' {
        text.append("\\u{2029}");
    } else if code <= 0x1f || (0x7f <= code && code <= 0x9f) {
        text.append("\\u{");
        text.push(digit_char((code / 16) as u8));
        text.push(digit_char((code % 16) as u8));
        text.push('}');
    } else {
        text.push(c);
    }
    proof {
        reveal_strlit("\\\\");
        reveal_strlit("\\n");
        reveal_strlit("\\r");
        reveal_strlit("\\t");
        reveal_strlit("\\u{2028}");
        reveal_strlit("\\u{2029}");
        reveal_strlit("\\u{");
    }
}

/// Escapes the characters from position `from` up to `to`.
fn escape_part(chars: &Vec<char>, from: usize, to: usize) -> (text: String)
    requires
        from <= to <= chars@.len(),
    ensures
        text@ == escaped(chars@.subrange(from as int, to as int)),
{
    let mut text = String::new();
    for i in from..to
        invariant
            from <= to <= chars@.len(),
            text@ == escaped(chars@.subrange(from as int, i as int)),
    {
        push_escaped(&mut text, chars[i]);
        proof {
            assert(chars@.subrange(from as int, i + 1).drop_last() == chars@.subrange(
                from as int,
                i as int,
            ));
        }
    }
    text
}

/// Escapes a text for the log.
pub fn escape(text: &str) -> (shown: String)
    ensures
        shown@ == escaped(text@),
{
    let chars = chars_of(text);
    let length: usize = chars.len();
    proof {
        assert(chars@.subrange(0, length as int) == chars@);
    }
    escape_part(&chars, 0, length)
}

/// Shortens a hash for the log.
pub fn elide(hash: &str) -> (shown: String)
    ensures
        shown@ == elided(hash@),
{
    let chars = chars_of(hash);
    let length: usize = chars.len();
    if length <= 2 * SHOWN_END {
        return escape(hash);
    }
    proof {
        assert(chars@.subrange(length - SHOWN_END, length as int) == chars@.skip(
            length - SHOWN_END,
        ));
    }
    let mut shown = escape_part(&chars, 0, SHOWN_END);
    shown.append("…");
    shown.append(escape_part(&chars, length - SHOWN_END, length).as_str());
    shown
}

/// Reports a reward; `amount` and `total` are amounts of JAY.
pub fn reward_line(amount: &str, shares: u64, tx_hash: &str, total: &str) -> (line: String)
    ensures
        line@ == reward_text(amount@, shares as nat, tx_hash@, total@),
{
    let mut line = "reward +".to_owned();
    line.append(amount);
    line.append(" JAY (shares ");
    line.append(decimal_text(shares as u128).as_str());
    line.append(", tx ");
    line.append(elide(tx_hash).as_str());
    line.append(") — running total ");
    line.append(total);
    line.append(" JAY");
    line
}

/// Reports how a session stands that has been up for `seconds`: `share` is the last of the
/// `submitted` shares.
pub fn stats_line(
    seconds: u64,
    submitted: u64,
    tally: Tally,
    earnings: &Earnings,
    balance: &Option<String>,
    share: &Option<Share>,
) -> (line: String)
    ensures
        line@ == stats_text(seconds as nat, submitted as nat, tally, *earnings, *balance, *share),
{
    let mut line = "[stats] up ".to_owned();
    line.append(decimal_text(seconds as u128).as_str());
    line.append("s | shares ");
    line.append(decimal_text(tally.accepted as u128).as_str());
    line.append("/");
    line.append(decimal_text(submitted as u128).as_str());
    line.append(" ok (");
    line.append(decimal_text(tally.rejected as u128).as_str());
    line.append(" rej) | rewards ");
    line.append(decimal_text(earnings.rewards as u128).as_str());
    line.append(" (");
    line.append(earnings.total.as_str());
    line.append(" JAY, last ");
    line.append(earnings.last.as_str());
    line.append(")");
    match balance {
        Some(balance) => {
            line.append(" | balance ");
            line.append(balance.as_str());
            line.append(" JAY");
        },
        None => {},
    }
    match share {
        Some(share) => {
            line.append(" | last_hash ");
            line.append(elide(share.hash.as_str()).as_str());
            line.append(" nonce=");
            line.append(decimal_text(share.nonce as u128).as_str());
        },
        None => {},
    }
    line
}

proof fn lemma_escaped_char_stays_on_one_line(c: char)
    ensures
        single_line(escaped_char(c)),
{
    if is_control(c) {
        assert(base36_digit(c as nat / 16) >= '0');
        assert(base36_digit(c as nat % 16) >= '0');
    }
}

/// Escaped, any text stays on one line.
pub proof fn law_escaped_stays_on_one_line(s: Seq<char>)
    ensures
        single_line(escaped(s)),
    decreases s.len(),
{
    if s.len() > 0 {
        law_escaped_stays_on_one_line(s.drop_last());
        lemma_escaped_char_stays_on_one_line(s.last());
    }
}

/// A text without control characters, line separators and backslashes is shown as it is.
pub proof fn law_plain_text_is_shown_as_it_is(s: Seq<char>)
    requires
        forall|i: int| 0 <= i < s.len() ==> escaped_char(#[trigger] s[i]) == seq![s[i]],
    ensures
        escaped(s) == s,
    decreases s.len(),
{
    if s.len() > 0 {
        assert(forall|i: int| 0 <= i < s.len() - 1 ==> s.drop_last()[i] == s[i]);
        law_plain_text_is_shown_as_it_is(s.drop_last());
        assert(escaped_char(s[s.len() - 1]) == seq![s.last()]);
    }
}

proof fn lemma_elided_stays_on_one_line(hash: Seq<char>)
    ensures
        single_line(elided(hash)),
{
    law_escaped_stays_on_one_line(hash);
    law_escaped_stays_on_one_line(hash.take(SHOWN_END as int));
    law_escaped_stays_on_one_line(hash.skip(hash.len() - SHOWN_END));
    reveal_strlit("…");
}

proof fn lemma_numeral_stays_on_one_line(n: nat)
    ensures
        single_line(decimal(n)),
{
    law_decimal_shape(n);
}

/// The line of a reward is one line, whatever the pool gave as its transaction.
pub proof fn law_reward_is_one_line(
    amount: Seq<char>,
    shares: nat,
    tx_hash: Seq<char>,
    total: Seq<char>,
)
    requires
        single_line(amount),
        single_line(total),
    ensures
        single_line(reward_text(amount, shares, tx_hash, total)),
{
    lemma_numeral_stays_on_one_line(shares);
    lemma_elided_stays_on_one_line(tx_hash);
    reveal_strlit("reward +");
    reveal_strlit(" JAY (shares ");
    reveal_strlit(", tx ");
    reveal_strlit(") — running total ");
    reveal_strlit(" JAY");
}

/// The line on how a session stands is one line.
pub proof fn law_stats_are_one_line(
    seconds: nat,
    submitted: nat,
    tally: Tally,
    earnings: Earnings,
    balance: Option<String>,
    share: Option<Share>,
)
    requires
        single_line(earnings.total@),
        single_line(earnings.last@),
        balance matches Some(b) ==> single_line(b@),
    ensures
        single_line(stats_text(seconds, submitted, tally, earnings, balance, share)),
{
    lemma_numeral_stays_on_one_line(seconds);
    lemma_numeral_stays_on_one_line(submitted);
    lemma_numeral_stays_on_one_line(tally.accepted as nat);
    lemma_numeral_stays_on_one_line(tally.rejected as nat);
    lemma_numeral_stays_on_one_line(earnings.rewards as nat);
    assert(single_line(balance_text(balance))) by {
        reveal_strlit(" | balance ");
        reveal_strlit(" JAY");
    }
    assert(single_line(last_share_text(share))) by {
        reveal_strlit(" | last_hash ");
        reveal_strlit(" nonce=");
        match share {
            Some(share) => {
                lemma_elided_stays_on_one_line(share.hash@);
                lemma_numeral_stays_on_one_line(share.nonce as nat);
            },
            None => {},
        }
    }
    reveal_strlit("[stats] up ");
    reveal_strlit("s | shares ");
    reveal_strlit("/");
    reveal_strlit(" ok (");
    reveal_strlit(" rej) | rewards ");
    reveal_strlit(" (");
    reveal_strlit(" JAY, last ");
    reveal_strlit(")");
}

/// Escaping goes character by character, and leaves all but control characters, line separators and
/// backslashes as they are.
pub proof fn law_escaping_goes_by_character(a: Seq<char>, b: Seq<char>, c: char)
    ensures
        escaped(a + b) == escaped(a) + escaped(b),
        escaped(seq![c]) == escaped_char(c),
        c != '\\' && c != '\u{2028}' && c != '\u{2029}' && !(c <= '\u{1f}' || '\u{7f}' <= c
            <= '\u{9f}') ==> escaped_char(c) == seq![c],
        is_control(c) <==> c <= '\u{1f}' || '\u{7f}' <= c <= '\u{9f}',
    decreases b.len(),
{
    assert(seq![c].drop_last() == Seq::<char>::empty());
    assert(escaped(Seq::<char>::empty()) == Seq::<char>::empty());
    if b.len() == 0 {
        assert(a + b == a);
    } else {
        law_escaping_goes_by_character(a, b.drop_last(), c);
        assert((a + b).drop_last() == a + b.drop_last());
    }
}

/// What is escaped begins with a backslash: it is doubled itself, line breaks and tabs go by their
/// letters, and other characters by their numbers in hexadecimal.
pub proof fn law_escapes(c: char)
    ensures
        escaped_char('\\') == seq!['\\', '\\'],
        escaped_char('\n') == seq!['\\', 'n'],
        escaped_char('\r') == seq!['\\', 'r'],
        escaped_char('\t') == seq!['\\', 't'],
        escaped_char('\u{2028}') == "\\u{2028}"@,
        escaped_char('\u{2029}') == "\\u{2029}"@,
        (c <= '\u{1f}' || '\u{7f}' <= c <= '\u{9f}') && c != '\n' && c != '\r' && c != '\t'
            ==> escaped_char(c) == seq![
            '\\',
            'u',
            '{',
            "0123456789abcdef"@[c as int / 16],
            "0123456789abcdef"@[c as int % 16],
            '}',
        ],
{
    reveal_strlit("\\u{2028}");
    reveal_strlit("\\u{2029}");
    reveal_strlit("0123456789abcdef");
}

/// A hash of up to 16 characters is shown whole; of a longer one the first 8 and the last 8 are
/// shown, with an ellipsis between them.
pub proof fn law_hashes_are_elided(first: Seq<char>, middle: Seq<char>, last: Seq<char>)
    requires
        first.len() == 8,
        last.len() == 8,
    ensures
        middle.len() > 0 ==> elided(first + middle + last) == escaped(first) + "…"@ + escaped(last),
        elided(first + last) == escaped(first + last),
        elided(last) == escaped(last),
{
    let hash = first + middle + last;
    assert(hash.take(8) == first);
    assert(hash.skip(hash.len() - 8) == last);
}

/// A hash of up to 16 characters is shown whole.
pub proof fn law_short_hashes_are_shown_whole(hash: Seq<char>)
    requires
        hash.len() <= 16,
    ensures
        elided(hash) == escaped(hash),
{
}

/// The line of a reward names the amount, the shares, the transaction and the running total.
pub proof fn law_reward_line(
    amount: Seq<char>,
    shares: nat,
    tx_hash: Seq<char>,
    total: Seq<char>,
)
    ensures
        reward_text(amount, shares, tx_hash, total) == "reward +"@ + amount + " JAY (shares "@
            + decimal(shares) + ", tx "@ + elided(tx_hash) + ") — running total "@ + total
            + " JAY"@,
{
}

/// The line on how a session stands names how long it is up, the shares that were accepted,
/// submitted and rejected, the rewards with their sum and the last of them, and, where they are
/// known, the balance and the last share.
pub proof fn law_stats_line(
    seconds: nat,
    submitted: nat,
    tally: Tally,
    earnings: Earnings,
    balance: Option<String>,
    share: Option<Share>,
)
    ensures
        ({
            let head = "[stats] up "@ + decimal(seconds) + "s | shares "@ + decimal(
                tally.accepted as nat,
            ) + "/"@ + decimal(submitted) + " ok ("@ + decimal(tally.rejected as nat)
                + " rej) | rewards "@ + decimal(earnings.rewards as nat) + " ("@ + earnings.total@
                + " JAY, last "@ + earnings.last@ + ")"@;
            let middle = match balance {
                Some(b) => " | balance "@ + b@ + " JAY"@,
                None => Seq::empty(),
            };
            let tail = match share {
                Some(last) => " | last_hash "@ + elided(last.hash@) + " nonce="@ + decimal(
                    last.nonce as nat,
                ),
                None => Seq::empty(),
            };
            stats_text(seconds, submitted, tally, earnings, balance, share) == head + middle + tail
        }),
{
}

/// A text stays on one line where it has neither of the two line breaks.
pub proof fn law_single_lines(s: Seq<char>)
    ensures
        single_line(s) <==> !s.contains('\n') && !s.contains('\r'),
{
}

} // verus!
