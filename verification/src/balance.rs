//! The balance of the wallet, as the chain's REST API reports it.

use vstd::prelude::*;
use vstd::string::*;

use crate::json::{parse_json, parsed_json, Json, JsonView};
use crate::protocol::text_member;
use crate::report::single_line;
use crate::text::{chars_of, decimal, digit, law_decimal_shape, same_text};

verus! {

/// How many decimals an amount of JAY has: the chain counts in millionths.
pub const DECIMALS: usize = 6;

/// Where the balances of a wallet are asked for.
pub open spec fn balance_address(rest_url: Seq<char>, wallet: Seq<char>) -> Seq<char> {
    rest_url + "/cosmos/bank/v1beta1/balances/"@ + wallet
}

/// Whether a text is a number of coins: decimal digits, and at least one.
pub open spec fn is_amount(s: Seq<char>) -> bool {
    s.len() > 0 && forall|i: int| 0 <= i < s.len() ==> '0' <= #[trigger] s[i] <= '9'
}

/// A numeral with as many zeros before it as make it `width` digits long.
pub open spec fn padded(numeral: Seq<char>, width: nat) -> Seq<char> {
    if numeral.len() >= width {
        numeral
    } else {
        Seq::new((width - numeral.len()) as nat, |i: int| '0') + numeral
    }
}

/// A number of millionths in JAY, with all its decimals.
pub open spec fn jay(millionths: Seq<char>) -> Seq<char> {
    let digits = padded(millionths, (DECIMALS + 1) as nat);
    let whole = digits.len() - DECIMALS;
    digits.take(whole) + seq!['.'] + digits.skip(whole)
}

/// The first coin of the denomination `ujay`, a millionth of a JAY.
pub open spec fn first_coin(coins: Seq<JsonView>) -> Option<JsonView>
    decreases coins.len(),
{
    if coins.len() == 0 {
        None
    } else if text_member(coins.first(), "denom"@) == Some("ujay"@) {
        Some(coins.first())
    } else {
        first_coin(coins.drop_first())
    }
}

/// The balance that a reply reports, in JAY: zero where the wallet holds no such coin, and nothing
/// where the reply is no list of coins or gives no number of them.
pub open spec fn balance_in(reply: JsonView) -> Option<Seq<char>> {
    match reply.get("balances"@) {
        Some(JsonView::List(coins)) => match first_coin(coins) {
            Some(coin) => match text_member(coin, "amount"@) {
                Some(amount) => if is_amount(amount) {
                    Some(jay(amount))
                } else {
                    None
                },
                None => None,
            },
            None => Some(jay(seq!['0'])),
        },
        _ => None,
    }
}

/// Words where the balances of a wallet are asked for.
pub fn balance_url(rest_url: &str, wallet: &str) -> (url: String)
    ensures
        url@ == balance_address(rest_url@, wallet@),
{
    let mut url = rest_url.to_owned();
    url.append("/cosmos/bank/v1beta1/balances/");
    url.append(wallet);
    url
}

/// Writes a number of millionths in JAY.
pub fn jay_text(millionths: &str) -> (text: String)
    ensures
        text@ == jay(millionths@),
{
    let chars = chars_of(millionths);
    let length: usize = chars.len();
    let width: usize = if length > DECIMALS {
        length
    } else {
        DECIMALS + 1
    };
    let zeros: usize = width - length;
    let ghost digits = padded(millionths@, (DECIMALS + 1) as nat);
    let ghost whole = width - DECIMALS;
    let mut text = String::new();
    for i in 0..width
        invariant
            zeros + length == width,
            width > DECIMALS,
            whole == width - DECIMALS,
            length == chars@.len(),
            digits.len() == width,
            forall|j: int| 0 <= j < zeros ==> digits[j] == '0',
            forall|j: int| 0 <= j < length ==> digits[zeros + j] == chars@[j],
            text@ == (if i <= whole {
                digits.take(i as int)
            } else {
                digits.take(whole) + seq!['.'] + digits.subrange(whole, i as int)
            }),
    {
        if i == width - DECIMALS {
            text.push('.');
        }
        if i < zeros {
            text.push('0');
        } else {
            proof {
                assert(digits[zeros + (i - zeros)] == chars@[i - zeros]);
            }
            text.push(chars[i - zeros]);
        }
    }
    text
}

/// Tests whether a text is a number of coins.
fn amount(text: &str) -> (r: bool)
    ensures
        r == is_amount(text@),
{
    let chars = chars_of(text);
    for i in 0..chars.len()
        invariant
            chars@ == text@,
            forall|j: int| 0 <= j < i ==> '0' <= #[trigger] chars@[j] <= '9',
    {
        if chars[i] < '0' || '9' < chars[i] {
            return false;
        }
    }
    chars.len() > 0
}

/// Takes the balance out of a reply.
pub fn balance_of(reply: &Json) -> (r: Option<String>)
    ensures
        match r {
            Some(balance) => balance_in(reply@) == Some(balance@),
            None => balance_in(reply@) is None,
        },
{
    let coins = match reply.get("balances") {
        Some(Json::List(coins)) => coins,
        _ => {
            return None;
        },
    };
    let ghost views = reply@.get("balances"@)->0->List_0;
    let mut i: usize = 0;
    proof {
        assert(views.skip(0) == views);
    }
    while i < coins.len()
        invariant
            i <= coins@.len() == views.len(),
            reply@.get("balances"@) == Some(JsonView::List(views)),
            forall|j: int| 0 <= j < views.len() ==> #[trigger] views[j] == coins@[j]@,
            first_coin(views) == first_coin(views.skip(i as int)),
        decreases coins@.len() - i,
    {
        proof {
            assert(views.skip(i as int).first() == views[i as int]);
            assert(views.skip(i as int).drop_first() == views.skip(i + 1));
        }
        let coin = &coins[i];
        if is_text(coin.get("denom"), "ujay") {
            return match coin.get("amount") {
                Some(member) => match member.as_text() {
                    Some(text) => if amount(text) {
                        Some(jay_text(text))
                    } else {
                        None
                    },
                    None => None,
                },
                None => None,
            };
        }
        i += 1;
    }
    proof {
        reveal_strlit("0");
        assert("0"@ == seq!['0']);
    }
    Some(jay_text("0"))
}

/// Tests whether a member is the given text.
fn is_text(member: Option<&Json>, wanted: &str) -> (r: bool)
    ensures
        r == (match member {
            Some(document) => document@.as_text() == Some(wanted@),
            None => false,
        }),
{
    match member {
        Some(document) => match document.as_text() {
            Some(text) => same_text(text, wanted),
            None => false,
        },
        None => false,
    }
}

/// Takes the balance out of the text of a reply.
pub fn read_balance(text: &str) -> (r: Option<String>)
    ensures
        match r {
            Some(balance) => parsed_json(text@) matches Some(reply) && balance_in(reply) == Some(
                balance@,
            ),
            None => parsed_json(text@) matches Some(reply) ==> balance_in(reply) is None,
        },
{
    match parse_json(text) {
        Some(reply) => balance_of(&reply),
        None => None,
    }
}

/// The last `k` digits of a number.
pub open spec fn last_digits(n: nat, k: nat) -> Seq<char>
    decreases k,
{
    if k == 0 {
        seq![]
    } else {
        last_digits(n / 10, (k - 1) as nat).push(digit(n % 10))
    }
}

/// A number without its last `k` digits.
spec fn without_last(n: nat, k: nat) -> nat
    decreases k,
{
    if k == 0 {
        n
    } else {
        without_last(n / 10, (k - 1) as nat)
    }
}

proof fn lemma_padded_splits(n: nat, k: nat)
    ensures
        padded(decimal(n), k + 1) == decimal(without_last(n, k)) + last_digits(n, k),
        last_digits(n, k).len() == k,
    decreases k,
{
    law_decimal_shape(n);
    if k > 0 {
        lemma_padded_splits(n / 10, (k - 1) as nat);
        law_decimal_shape(n / 10);
        assert(padded(decimal(n), k + 1) == padded(decimal(n / 10), k).push(digit(n % 10)));
        assert(decimal(without_last(n, k)) + last_digits(n, k) == (decimal(without_last(n, k))
            + last_digits(n / 10, (k - 1) as nat)).push(digit(n % 10)));
    }
}

/// A number of millionths is written as the whole JAY in it, a point, and six decimals.
pub proof fn law_millionths_are_written_exactly(n: nat)
    ensures
        jay(decimal(n)) == decimal(n / 1_000_000) + seq!['.'] + last_digits(n, 6),
{
    lemma_padded_splits(n, 6);
    reveal_with_fuel(without_last, 7);
    assert(without_last(n, 6) == n / 1_000_000);
    let digits = padded(decimal(n), 7);
    assert(digits.take(digits.len() - 6) == decimal(n / 1_000_000));
    assert(digits.skip(digits.len() - 6) == last_digits(n, 6));
}

/// A balance stays on one line of the log.
pub proof fn law_balance_stays_on_one_line(reply: JsonView)
    ensures
        balance_in(reply) matches Some(balance) ==> single_line(balance),
{
}

/// A number of millionths is written with all its digits and a point before the last six of them,
/// with a zero for each of seven digits that it lacks.
pub proof fn law_point_stands_before_six_digits(millionths: Seq<char>)
    ensures
        ({
            let shown = jay(millionths);
            let point = shown.len() - 7;
            let zeros = shown.len() - 1 - millionths.len();
            let digits = shown.remove(point);
            &&& point >= 1
            &&& shown[point] == '.'
            &&& zeros == (if millionths.len() < 7 {
                7 - millionths.len()
            } else {
                0
            })
            &&& digits.skip(zeros) == millionths
            &&& forall|i: int| 0 <= i < zeros ==> #[trigger] digits[i] == '0'
        }),
{
    let digits = padded(millionths, 7);
    let shown = jay(millionths);
    assert(shown.remove(shown.len() - 7) == digits);
    assert(digits.skip(digits.len() - millionths.len()) == millionths);
}

/// The balances of a wallet are asked for under the bank module's path.
pub proof fn law_balance_address(rest_url: Seq<char>, wallet: Seq<char>)
    ensures
        balance_address(rest_url, wallet) == rest_url + "/cosmos/bank/v1beta1/balances/"@ + wallet,
{
}

proof fn lemma_first_coin(coins: Seq<JsonView>, i: int)
    requires
        0 <= i < coins.len(),
        coins[i].get("denom"@) == Some(JsonView::Text("ujay"@)),
        forall|j: int|
            0 <= j < i ==> (#[trigger] coins[j]).get("denom"@) != Some(JsonView::Text("ujay"@)),
    ensures
        first_coin(coins) == Some(coins[i]),
    decreases coins.len(),
{
    if i > 0 {
        assert(coins[0].get("denom"@) != Some(JsonView::Text("ujay"@)));
        let rest = coins.drop_first();
        assert forall|j: int| 0 <= j < i - 1 implies (#[trigger] rest[j]).get("denom"@) != Some(
            JsonView::Text("ujay"@),
        ) by {
            assert(coins[j + 1].get("denom"@) != Some(JsonView::Text("ujay"@)));
        }
        lemma_first_coin(rest, i - 1);
    }
}

proof fn lemma_no_coin(coins: Seq<JsonView>)
    requires
        forall|j: int|
            0 <= j < coins.len() ==> (#[trigger] coins[j]).get("denom"@) != Some(
                JsonView::Text("ujay"@),
            ),
    ensures
        first_coin(coins) is None,
    decreases coins.len(),
{
    if coins.len() > 0 {
        assert(coins[0].get("denom"@) != Some(JsonView::Text("ujay"@)));
        let rest = coins.drop_first();
        assert forall|j: int| 0 <= j < rest.len() implies (#[trigger] rest[j]).get("denom"@) != Some(
            JsonView::Text("ujay"@),
        ) by {
            assert(coins[j + 1].get("denom"@) != Some(JsonView::Text("ujay"@)));
        }
        lemma_no_coin(rest);
    }
}

/// The balance is the amount of the first `ujay` coin in the reply's list, wherever it stands; it
/// is zero where the list holds none, and nothing where there is no list or the amount is not made
/// of decimal digits.
pub proof fn law_balance_is_read(reply: JsonView, coins: Seq<JsonView>, i: int)
    ensures
        (match reply.get("balances"@) {
            Some(JsonView::List(_)) => false,
            _ => true,
        }) ==> balance_in(reply) is None,
        reply.get("balances"@) == Some(JsonView::List(coins)) && (forall|j: int|
            0 <= j < coins.len() ==> (#[trigger] coins[j]).get("denom"@) != Some(
                JsonView::Text("ujay"@),
            )) ==> balance_in(reply) == Some("0.000000"@),
        reply.get("balances"@) == Some(JsonView::List(coins)) && 0 <= i < coins.len()
            && coins[i].get("denom"@) == Some(JsonView::Text("ujay"@)) && (forall|j: int|
            0 <= j < i ==> (#[trigger] coins[j]).get("denom"@) != Some(JsonView::Text("ujay"@)))
            ==> balance_in(reply) == (match coins[i].get("amount"@) {
            Some(JsonView::Text(amount)) => if amount.len() > 0 && forall|k: int|
                0 <= k < amount.len() ==> '0' <= #[trigger] amount[k] <= '9' {
                Some(jay(amount))
            } else {
                None
            },
            _ => None,
        }),
{
    if reply.get("balances"@) == Some(JsonView::List(coins)) {
        if forall|j: int|
            0 <= j < coins.len() ==> (#[trigger] coins[j]).get("denom"@) != Some(
                JsonView::Text("ujay"@),
            ) {
            lemma_no_coin(coins);
            reveal_strlit("0.000000");
            assert(jay(seq!['0']) == "0.000000"@);
        }
        if 0 <= i < coins.len() && coins[i].get("denom"@) == Some(JsonView::Text("ujay"@)) && (
        forall|j: int|
            0 <= j < i ==> (#[trigger] coins[j]).get("denom"@) != Some(JsonView::Text("ujay"@))) {
            lemma_first_coin(coins, i);
        }
    }
}

} // verus!
