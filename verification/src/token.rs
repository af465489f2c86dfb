//! The fee gateway: payment lookup in attached funds and the deferred
//! transfer directive.  The registry only decides whether and how much to
//! transfer; the host executes the directive after the state commits.
use vstd::prelude::*;

verus! {

/// The kind of token a price or payment is denominated in.
#[derive(Debug, Clone, PartialEq, Eq)]
pub enum Token {
    /// A native token, named by its denomination.
    Denom(String),
}

impl View for Token {
    type V = Seq<char>;

    open spec fn view(&self) -> Seq<char> {
        match self {
            Token::Denom(d) => d@,
        }
    }
}

/// A token together with an amount: the configured price.
#[derive(Debug, Clone, PartialEq, Eq)]
pub struct TokenAmount {
    pub token: Token,
    pub amount: u128,
}

/// Mathematical value of a `TokenAmount`.
#[verifier::ext_equal]
pub ghost struct TokenAmountView {
    pub denom: Seq<char>,
    pub amount: u128,
}

impl View for TokenAmount {
    type V = TokenAmountView;

    open spec fn view(&self) -> TokenAmountView {
        TokenAmountView { denom: self.token@, amount: self.amount }
    }
}

/// A single entry of the funds a caller attaches to an operation.
#[derive(Debug, Clone, PartialEq, Eq)]
pub struct Coin {
    pub denom: String,
    pub amount: u128,
}

/// Mathematical value of a `Coin`.
#[verifier::ext_equal]
pub ghost struct CoinView {
    pub denom: Seq<char>,
    pub amount: u128,
}

impl View for Coin {
    type V = CoinView;

    open spec fn view(&self) -> CoinView {
        CoinView { denom: self.denom@, amount: self.amount }
    }
}

impl DeepView for Coin {
    type V = CoinView;

    open spec fn deep_view(&self) -> CoinView {
        self.view()
    }
}

/// A deferred fund-transfer instruction, returned alongside an operation's
/// result and executed by the host only after the state change is committed.
#[derive(Debug, Clone, PartialEq, Eq)]
pub struct TransferDirective {
    pub to_address: String,
    pub denom: String,
    pub amount: u128,
}

/// Mathematical value of a `TransferDirective`.
#[verifier::ext_equal]
pub ghost struct TransferView {
    pub to_address: Seq<char>,
    pub denom: Seq<char>,
    pub amount: u128,
}

impl View for TransferDirective {
    type V = TransferView;

    open spec fn view(&self) -> TransferView {
        TransferView { to_address: self.to_address@, denom: self.denom@, amount: self.amount }
    }
}

impl DeepView for TransferDirective {
    type V = TransferView;

    open spec fn deep_view(&self) -> TransferView {
        self.view()
    }
}

/// Whether `funds` hold an entry in denomination `denom` with an amount of at
/// least `required`.
pub open spec fn has_payment(funds: Seq<CoinView>, denom: Seq<char>, required: u128) -> bool {
    exists|i: int|
        0 <= i < funds.len() && (#[trigger] funds[i]).denom == denom && funds[i].amount >= required
}

/// The amount of the first entry of `funds` in denomination `denom` with an
/// amount of at least `min_amount` (of at least zero when no bound is given).
pub open spec fn spec_find_in_funds(
    funds: Seq<CoinView>,
    denom: Seq<char>,
    min_amount: Option<u128>,
) -> Option<u128>
    decreases funds.len(),
{
    if funds.len() == 0 {
        None
    } else if funds[0].denom == denom && (min_amount matches Some(m) ==> funds[0].amount >= m) {
        Some(funds[0].amount)
    } else {
        spec_find_in_funds(funds.drop_first(), denom, min_amount)
    }
}

/// The search succeeds exactly when a sufficient entry exists.
pub proof fn lemma_find_iff_has_payment(funds: Seq<CoinView>, denom: Seq<char>, required: u128)
    ensures
        spec_find_in_funds(funds, denom, Some(required)) is Some <==> has_payment(
            funds,
            denom,
            required,
        ),
    decreases funds.len(),
{
    if funds.len() > 0 {
        let tail = funds.drop_first();
        lemma_find_iff_has_payment(tail, denom, required);
        if !(funds[0].denom == denom && funds[0].amount >= required) {
            if has_payment(tail, denom, required) {
                let i = choose|i: int|
                    0 <= i < tail.len() && (#[trigger] tail[i]).denom == denom && tail[i].amount
                        >= required;
                assert(funds[i + 1] == tail[i]);
                assert(has_payment(funds, denom, required));
            }
            if has_payment(funds, denom, required) {
                let i = choose|i: int|
                    0 <= i < funds.len() && (#[trigger] funds[i]).denom == denom && funds[i].amount
                        >= required;
                assert(i >= 1);
                assert(tail[i - 1] == funds[i]);
                assert(has_payment(tail, denom, required));
            }
        }
    }
}

impl Token {
    /// Scans the attached funds for an entry in this token's denomination
    /// whose amount is at least `min_amount`, returning the first such
    /// amount.
    pub fn find_in_funds(&self, funds: &Vec<Coin>, min_amount: Option<u128>) -> (r: Option<u128>)
        ensures
            r == spec_find_in_funds(funds.deep_view(), self@, min_amount),
    {
        let Token::Denom(denom) = self;
        proof {
            assert(funds.deep_view().skip(0) =~= funds.deep_view());
        }
        let mut i: usize = 0;
        while i < funds.len()
            invariant
                i <= funds@.len(),
                denom@ == self@,
                spec_find_in_funds(funds.deep_view(), self@, min_amount) == spec_find_in_funds(
                    funds.deep_view().skip(i as int),
                    self@,
                    min_amount,
                ),
            decreases funds@.len() - i,
        {
            let coin = &funds[i];
            let sufficient = match min_amount {
                Some(m) => coin.amount >= m,
                None => true,
            };
            if sufficient && coin.denom.eq(denom) {
                proof {
                    assert(funds.deep_view().skip(i as int)[0] == funds.deep_view()[i as int]);
                }
                return Some(coin.amount);
            }
            proof {
                assert(funds.deep_view().skip(i as int)[0] == funds.deep_view()[i as int]);
                assert(funds.deep_view().skip(i as int).drop_first() =~= funds.deep_view().skip(
                    i as int + 1,
                ));
            }
            i = i + 1;
        }
        proof {
            assert(funds.deep_view().skip(i as int).len() == 0);
        }
        None
    }

    /// Builds the deferred directive that transfers `amount` of this token to
    /// `to`.
    pub fn transfer(&self, to: &String, amount: u128) -> (r: TransferDirective)
        ensures
            r@ == (TransferView { to_address: to@, denom: self@, amount }),
    {
        let Token::Denom(denom) = self;
        TransferDirective { to_address: to.clone(), denom: denom.clone(), amount }
    }
}

/// Copies a token, preserving its value.
pub fn clone_token(t: &Token) -> (r: Token)
    ensures
        r@ == t@,
{
    let Token::Denom(d) = t;
    Token::Denom(d.clone())
}

/// Copies a price, preserving its value.
pub fn clone_token_amount(t: &TokenAmount) -> (r: TokenAmount)
    ensures
        r@ == t@,
{
    TokenAmount { token: clone_token(&t.token), amount: t.amount }
}

} // verus!
