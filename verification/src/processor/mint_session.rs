use vstd::prelude::*;
use vstd::bytes::spec_u64_from_le_bytes;
use crate::address::Address;
use crate::constants::{COLLECTIONS_FEATURE_INDEX, SET_COLLECTION_DURING_MINT_DISCRIMINATOR};
use crate::errors::MagicHatError;
use crate::processor::instruction_scan::{
    instruction_calls_allowed, instruction_program_id, instruction_relative,
    lemma_accepted_transaction_calls_only_allowed_programs, relative_instruction,
    scan_instruction_programs, scan_instructions, u16_at, InstructionScan, ScanOutcome,
};
use crate::processor::whitelist_mint::{
    allowed_programs, balance_verdict, bitmask_fits, bitmask_in_bounds, check_balance,
    check_end_settings, check_items_passes, check_items_remaining, check_next_instruction,
    check_transaction_accounts, chosen_line, consume_whitelist_spot, end_settings_verdict,
    gatekeeper_accounts, gatekeeper_layout, get_config_line, mark_minted, metadata_mutability,
    mint_creators, new_update_authority, next_instruction_verdict, plan_whitelist, random_start_index,
    read_config_line, record_redemption, token_payment_accounts, transaction_accounts_verdict,
    whitelist_plan, lemma_whitelist_plan_prices, BurnAccounts, GatekeeperAccounts, MintVerdict, ProgramIds,
};
use crate::state::{ConfigLine, Creator, EndSettingType, MagicHat, WhitelistMintMode};
use crate::text::decimal_digits;
use crate::utils::{assert_valid_go_live, go_live_reached};
use crate::wallet_whitelist::WalletWhitelist;

verus! {

/// What the mint instruction reads before it decides: its transaction, the
/// clock, the payer and the keys of its remaining accounts.
pub struct MintRequest {
    pub ids: ProgramIds,
    pub metadata_is_empty: bool,
    pub slot_hashes_key: Address,
    /// The data of the instructions sysvar: the transaction's instructions
    /// and the index of the running one.
    pub instructions_sysvar: Vec<u8>,
    pub now: i64,
    pub payer: Address,
    pub remaining: Vec<Address>,
    /// The payer's balance of the whitelist token, read from the remaining
    /// account that follows the gateway accounts, when that account is the
    /// payer's associated token account for the whitelist mint.
    pub whitelist_token: Option<u64>,
}

/// Inputs on which the mint instruction stops with a panic.
#[derive(Clone, Copy, Debug, PartialEq, Eq, Structural)]
pub enum MintAbort {
    CurrentInstructionUnreadable,
    NextInstructionTooShort,
    EmptyUuid,
    InstructionEntryUnreadable,
    InstructionIndexOverflow,
    MissingRemainingAccount,
    SlotHashesTooShort,
    BitmaskOutOfBounds,
}

/// How a mint stops without minting.
#[derive(Clone, Copy, Debug)]
pub enum MintStop {
    /// Charge the bot fee and end successfully.
    Punish(MagicHatError),
    /// Charge the bot fee for an instruction that calls this program.
    PunishProgram(Address),
    /// Fail with the error.
    Fail(MagicHatError),
    /// Fail because the instructions sysvar holds no instruction count.
    InvalidAccountData,
    /// Panic.
    Abort(MintAbort),
}

/// The metadata of a minted NFT.
pub struct MintMetadata {
    pub line: ConfigLine,
    pub symbol: String,
    pub seller_fee_basis_points: u16,
    pub creators: Vec<Creator>,
    /// Whether the metadata is created mutable.
    pub is_mutable: bool,
    /// The maximum supply of the master edition.
    pub max_supply: u64,
    /// The update authority set after creation.
    pub update_authority: Address,
    /// The mutability set after creation, if it changes.
    pub mutability: Option<bool>,
}

/// An outside call that the mint makes, in order; each either succeeds or
/// fails the whole instruction.
pub enum MintAction {
    /// Have the gateway program check the gateway token, as laid out.
    VerifyGateway(GatekeeperAccounts),
    /// Burn one whitelist token from remaining account `source`.
    Burn { source: usize, accounts: BurnAccounts },
    /// Pay `price` to the magic hat's wallet: in lamports, or from the token
    /// account and with the authority at these remaining accounts.
    Pay { price: u64, token_accounts: Option<(usize, usize)> },
    /// Create the NFT's metadata and master edition and set its authority.
    CreateMetadata(MintMetadata),
}

/// A stop, with program ids as byte sequences.
pub enum StopView {
    Punish(MagicHatError),
    PunishProgram(Seq<u8>),
    Fail(MagicHatError),
    InvalidAccountData,
    Abort(MintAbort),
}

/// The stop as a plain value.
pub open spec fn stop_view(s: MintStop) -> StopView {
    match s {
        MintStop::Punish(e) => StopView::Punish(e),
        MintStop::PunishProgram(p) => StopView::PunishProgram(p@),
        MintStop::Fail(e) => StopView::Fail(e),
        MintStop::InvalidAccountData => StopView::InvalidAccountData,
        MintStop::Abort(a) => StopView::Abort(a),
    }
}

/// How the checks that come before the payment end: stopped after some
/// outside calls, or passed, with the calls made, the price and the payment
/// accounts.
pub enum OpeningView {
    Stopped(Seq<MintAction>, StopView),
    Checkout(Seq<MintAction>, u64, Option<(usize, usize)>),
}

/// Goes on with `rest` when the verdict lets the mint continue.
pub open spec fn after_verdict(v: MintVerdict, actions: Seq<MintAction>, rest: OpeningView) -> OpeningView {
    match v {
        MintVerdict::Continue => rest,
        MintVerdict::Punish(e) => OpeningView::Stopped(actions, StopView::Punish(e)),
        MintVerdict::Fail(e) => OpeningView::Stopped(actions, StopView::Fail(e)),
    }
}

/// The sold-out check and the payment accounts, after `actions` and with the
/// next unused remaining account at `counter`.
pub open spec fn opening_items(
    req: MintRequest,
    mh: MagicHat,
    actions: Seq<MintAction>,
    price: u64,
    counter: int,
) -> OpeningView {
    if !check_items_passes(mh) {
        OpeningView::Stopped(actions, StopView::Punish(MagicHatError::MagicHatEmpty))
    } else if mh.token_mint is Some && counter + 1 >= req.remaining@.len() {
        OpeningView::Stopped(actions, StopView::Abort(MintAbort::MissingRemainingAccount))
    } else if mh.token_mint is Some {
        OpeningView::Checkout(actions, price, Some((counter as usize, (counter + 1) as usize)))
    } else {
        OpeningView::Checkout(actions, price, None)
    }
}

/// The whitelist settings, with the whitelist token account at `counter`.
pub open spec fn opening_whitelist(
    req: MintRequest,
    mh: MagicHat,
    ww: WalletWhitelist,
    actions: Seq<MintAction>,
    counter: int,
) -> OpeningView {
    let missing = OpeningView::Stopped(actions, StopView::Abort(MintAbort::MissingRemainingAccount));
    match mh.data.whitelist_mint_settings {
        Some(ws) => if counter >= req.remaining@.len() {
            missing
        } else if req.whitelist_token matches Some(a) && a > 0 && ws.mode
            == WhitelistMintMode::BurnEveryTime && (go_live_reached(mh, req.payer, req.now)
            || ws.presale) && counter + 2 >= req.remaining@.len() {
            missing
        } else {
            let plan = whitelist_plan(
                mh,
                req.whitelist_token,
                req.now,
                req.payer,
                req.remaining@,
                counter,
                ww.special_discounted_price,
            );
            let burned = match plan.burn {
                Some(b) => actions.push(MintAction::Burn { source: counter as usize, accounts: b }),
                None => actions,
            };
            after_verdict(
                plan.verdict,
                actions,
                opening_items(req, mh, burned, plan.price, plan.next_counter as int),
            )
        },
        None => {
            let plan = whitelist_plan(
                mh,
                req.whitelist_token,
                req.now,
                req.payer,
                req.remaining@,
                counter,
                ww.special_discounted_price,
            );
            after_verdict(plan.verdict, actions, opening_items(req, mh, actions, plan.price, counter))
        },
    }
}

/// The end settings, then the gateway token and the whitelist.
pub open spec fn opening_after_scan(req: MintRequest, mh: MagicHat, ww: WalletWhitelist) -> OpeningView {
    let none = Seq::<MintAction>::empty();
    let (g, counter) = gatekeeper_layout(mh.data.gatekeeper, req.remaining@.len() as usize);
    after_verdict(
        end_settings_verdict(mh, req.now, req.payer),
        none,
        match g {
            GatekeeperAccounts::NotRequired => opening_whitelist(req, mh, ww, none, counter as int),
            GatekeeperAccounts::Refused(v) => after_verdict(
                v,
                none,
                opening_whitelist(req, mh, ww, none, counter as int),
            ),
            _ => opening_whitelist(req, mh, ww, seq![MintAction::VerifyGateway(g)], counter as int),
        },
    )
}

/// The programs that the other instructions of the transaction may call.
pub open spec fn allowed_seq(ids: ProgramIds) -> Seq<Address> {
    seq![ids.magic_hat, ids.spl_token, ids.system, ids.associated_token]
}

/// The programs that the other instructions call, then the end settings,
/// the gateway token and the whitelist.
pub open spec fn opening_scan(req: MintRequest, mh: MagicHat, ww: WalletWhitelist) -> OpeningView {
    let none = Seq::<MintAction>::empty();
    match scan_instructions(req.instructions_sysvar@, allowed_seq(req.ids)) {
        ScanOutcome::CountUnreadable => OpeningView::Stopped(none, StopView::InvalidAccountData),
        ScanOutcome::EntryUnreadable(_) => OpeningView::Stopped(
            none,
            StopView::Abort(MintAbort::InstructionEntryUnreadable),
        ),
        ScanOutcome::IndexOverflow => OpeningView::Stopped(
            none,
            StopView::Abort(MintAbort::InstructionIndexOverflow),
        ),
        ScanOutcome::Disallowed(id) => OpeningView::Stopped(none, StopView::PunishProgram(id)),
        ScanOutcome::AllAllowed => opening_after_scan(req, mh, ww),
    }
}

/// The instruction after the mint, then the rest.
pub open spec fn opening_next(req: MintRequest, mh: MagicHat, ww: WalletWhitelist) -> OpeningView {
    let none = Seq::<MintAction>::empty();
    let sysvar = req.instructions_sysvar@;
    match relative_instruction(sysvar, 1) {
        Some(next) => if next.1.len() < 8 {
            OpeningView::Stopped(none, StopView::Abort(MintAbort::NextInstructionTooShort))
        } else {
            after_verdict(
                next_instruction_verdict(
                    req.ids,
                    mh.data.uuid@,
                    Some(next.0),
                    next.1,
                    relative_instruction(sysvar, 2) is Some,
                ),
                none,
                opening_scan(req, mh, ww),
            )
        },
        None => if mh.data.uuid@.len() <= COLLECTIONS_FEATURE_INDEX {
            OpeningView::Stopped(none, StopView::Abort(MintAbort::EmptyUuid))
        } else {
            after_verdict(
                next_instruction_verdict(req.ids, mh.data.uuid@, None, Seq::empty(), false),
                none,
                opening_scan(req, mh, ww),
            )
        },
    }
}

/// Everything the mint checks before the payment, in the order it checks
/// it: the running instruction and the transaction's accounts, the
/// instruction after the mint, the programs of the other instructions, the
/// end settings, the gateway token, the whitelist and the supply.
pub open spec fn opening(req: MintRequest, mh: MagicHat, ww: WalletWhitelist) -> OpeningView {
    let none = Seq::<MintAction>::empty();
    match relative_instruction(req.instructions_sysvar@, 0) {
        None => OpeningView::Stopped(none, StopView::Abort(MintAbort::CurrentInstructionUnreadable)),
        Some(current) => after_verdict(
            transaction_accounts_verdict(req.ids, req.metadata_is_empty, req.slot_hashes_key, current.0),
            none,
            opening_next(req, mh, ww),
        ),
    }
}

/// The outcome of the checks that come before the payment.
pub enum MintOpening {
    /// The mint stops after these outside calls.
    Stopped { actions: Vec<MintAction>, stop: MintStop },
    /// Every check passed after these outside calls; the payment comes next.
    Checkout { actions: Vec<MintAction>, checkout: MintCheckout },
}

/// A mint that passed every check before the payment, waiting for the
/// payer's balance.
pub struct MintCheckout {
    request: Ghost<MintRequest>,
    magic_hat: MagicHat,
    wallet_whitelist: WalletWhitelist,
    price: u64,
    payment: Option<(usize, usize)>,
}

/// The opening as a plain value.
pub open spec fn opening_view(r: MintOpening) -> OpeningView {
    match r {
        MintOpening::Stopped { actions, stop } => OpeningView::Stopped(actions@, stop_view(stop)),
        MintOpening::Checkout { actions, checkout } => OpeningView::Checkout(
            actions@,
            checkout.price(),
            checkout.payment(),
        ),
    }
}

impl MintCheckout {
    /// The request of the mint.
    pub closed spec fn request(self) -> MintRequest {
        self.request@
    }

    /// The magic hat as the mint found it.
    pub closed spec fn magic_hat(self) -> MagicHat {
        self.magic_hat
    }

    /// The payer's whitelist entry as the mint found it.
    pub closed spec fn wallet_whitelist(self) -> WalletWhitelist {
        self.wallet_whitelist
    }

    /// The price to pay.
    pub closed spec fn price(self) -> u64 {
        self.price
    }

    /// The token account and transfer authority that pay, when the sale is
    /// in tokens.
    pub closed spec fn payment(self) -> Option<(usize, usize)> {
        self.payment
    }

    /// Every check before the payment passed, with this price and these
    /// payment accounts.
    #[verifier::type_invariant]
    spec fn passed_opening(self) -> bool {
        opening(self.request@, self.magic_hat, self.wallet_whitelist) matches OpeningView::Checkout(
            _,
            p,
            pay,
        ) && p == self.price && pay == self.payment
    }

    /// The price to pay.
    pub fn amount_due(&self) -> (p: u64)
        ensures
            p == self.price(),
    {
        self.price
    }

    /// The remaining accounts that pay, when the sale is in tokens: where the
    /// payer's balance is read.
    pub fn payment_accounts(&self) -> (r: Option<(usize, usize)>)
        ensures
            r == self.payment(),
    {
        self.payment
    }
}

/// Runs the checks of a whitelist mint up to the payment, in order, and
/// gives back the outside calls to make on the way and how they end.
#[verifier::rlimit(60)]
#[verifier::spinoff_prover]
pub fn begin_whitelist_mint(request: MintRequest, magic_hat: MagicHat, wallet_whitelist: WalletWhitelist) -> (r:
    MintOpening)
    ensures
        opening_view(r) == opening(request, magic_hat, wallet_whitelist),
        r matches MintOpening::Checkout { checkout, .. } ==> checkout.request() == request
            && checkout.magic_hat() == magic_hat && checkout.wallet_whitelist() == wallet_whitelist,
{
    let current = match instruction_relative(request.instructions_sysvar.as_slice(), 0) {
        Some((program, _)) => program,
        None => {
            return MintOpening::Stopped {
                actions: Vec::new(),
                stop: MintStop::Abort(MintAbort::CurrentInstructionUnreadable),
            };
        },
    };
    match check_transaction_accounts(
        &request.ids,
        request.metadata_is_empty,
        &request.slot_hashes_key,
        &current,
    ) {
        MintVerdict::Continue => {},
        MintVerdict::Punish(e) => return MintOpening::Stopped { actions: Vec::new(), stop: MintStop::Punish(e) },
        MintVerdict::Fail(e) => return MintOpening::Stopped { actions: Vec::new(), stop: MintStop::Fail(e) },
    }
    let next = match instruction_relative(request.instructions_sysvar.as_slice(), 1) {
        Some((program, data)) => {
            if data.len() < 8 {
                return MintOpening::Stopped {
                    actions: Vec::new(),
                    stop: MintStop::Abort(MintAbort::NextInstructionTooShort),
                };
            }
            let after = instruction_relative(request.instructions_sysvar.as_slice(), 2).is_some();
            check_next_instruction(&request.ids, &magic_hat.data.uuid, Some(program), data.as_slice(), after)
        },
        None => {
            if magic_hat.data.uuid.as_str().unicode_len() <= COLLECTIONS_FEATURE_INDEX {
                return MintOpening::Stopped {
                    actions: Vec::new(),
                    stop: MintStop::Abort(MintAbort::EmptyUuid),
                };
            }
            let no_data: Vec<u8> = Vec::new();
            check_next_instruction(&request.ids, &magic_hat.data.uuid, None, no_data.as_slice(), false)
        },
    };
    match next {
        MintVerdict::Continue => {},
        MintVerdict::Punish(e) => return MintOpening::Stopped { actions: Vec::new(), stop: MintStop::Punish(e) },
        MintVerdict::Fail(e) => return MintOpening::Stopped { actions: Vec::new(), stop: MintStop::Fail(e) },
    }
    let allowed = allowed_programs(&request.ids);
    match scan_instruction_programs(request.instructions_sysvar.as_slice(), &allowed) {
        InstructionScan::AllAllowed => {},
        InstructionScan::CountUnreadable => {
            return MintOpening::Stopped { actions: Vec::new(), stop: MintStop::InvalidAccountData };
        },
        InstructionScan::EntryUnreadable(_) => {
            return MintOpening::Stopped {
                actions: Vec::new(),
                stop: MintStop::Abort(MintAbort::InstructionEntryUnreadable),
            };
        },
        InstructionScan::IndexOverflow => {
            return MintOpening::Stopped {
                actions: Vec::new(),
                stop: MintStop::Abort(MintAbort::InstructionIndexOverflow),
            };
        },
        InstructionScan::Disallowed(p) => {
            return MintOpening::Stopped { actions: Vec::new(), stop: MintStop::PunishProgram(p) };
        },
    }
    match check_end_settings(&magic_hat, request.now, &request.payer) {
        MintVerdict::Continue => {},
        MintVerdict::Punish(e) => return MintOpening::Stopped { actions: Vec::new(), stop: MintStop::Punish(e) },
        MintVerdict::Fail(e) => return MintOpening::Stopped { actions: Vec::new(), stop: MintStop::Fail(e) },
    }
    let (gateway, counter) = gatekeeper_accounts(&magic_hat.data.gatekeeper, request.remaining.len());
    let mut actions: Vec<MintAction> = Vec::new();
    match gateway {
        GatekeeperAccounts::NotRequired => {},
        GatekeeperAccounts::Refused(v) => match v {
            MintVerdict::Continue => {},
            MintVerdict::Punish(e) => return MintOpening::Stopped { actions, stop: MintStop::Punish(e) },
            MintVerdict::Fail(e) => return MintOpening::Stopped { actions, stop: MintStop::Fail(e) },
        },
        _ => actions.push(MintAction::VerifyGateway(gateway)),
    }
    if let Some(ws) = &magic_hat.data.whitelist_mint_settings {
        if counter >= request.remaining.len() {
            return MintOpening::Stopped {
                actions,
                stop: MintStop::Abort(MintAbort::MissingRemainingAccount),
            };
        }
        if let Some(a) = request.whitelist_token {
            let live = assert_valid_go_live(&request.payer, request.now, &magic_hat).is_ok();
            if a > 0 && ws.mode == WhitelistMintMode::BurnEveryTime && (live || ws.presale) && counter + 2
                >= request.remaining.len() {
                return MintOpening::Stopped {
                    actions,
                    stop: MintStop::Abort(MintAbort::MissingRemainingAccount),
                };
            }
        }
    }
    let plan = plan_whitelist(
        &magic_hat,
        request.whitelist_token,
        request.now,
        &request.payer,
        &request.remaining,
        counter,
        wallet_whitelist.special_discounted_price,
    );
    match plan.verdict {
        MintVerdict::Continue => {},
        MintVerdict::Punish(e) => return MintOpening::Stopped { actions, stop: MintStop::Punish(e) },
        MintVerdict::Fail(e) => return MintOpening::Stopped { actions, stop: MintStop::Fail(e) },
    }
    if let Some(b) = plan.burn {
        actions.push(MintAction::Burn { source: counter, accounts: b });
    }
    match check_items_remaining(&magic_hat) {
        MintVerdict::Continue => {},
        MintVerdict::Punish(e) => return MintOpening::Stopped { actions, stop: MintStop::Punish(e) },
        MintVerdict::Fail(e) => return MintOpening::Stopped { actions, stop: MintStop::Fail(e) },
    }
    let next_counter = plan.next_counter;
    if magic_hat.token_mint.is_some() && next_counter + 1 >= request.remaining.len() {
        return MintOpening::Stopped { actions, stop: MintStop::Abort(MintAbort::MissingRemainingAccount) };
    }
    let payment = token_payment_accounts(&magic_hat, next_counter);
    let checkout = MintCheckout { request: Ghost(request), magic_hat, wallet_whitelist, price: plan.price, payment };
    MintOpening::Checkout { actions, checkout }
}

/// How a mint that reached the payment ends.
pub enum MintClosing {
    /// The mint stops after these outside calls.
    Stopped { actions: Vec<MintAction>, stop: MintStop },
    /// The NFT is minted by these outside calls; the magic hat and the
    /// payer's whitelist entry become these.
    Minted { actions: Vec<MintAction>, magic_hat: MagicHat, wallet_whitelist: WalletWhitelist },
}

/// The mint stops with `stop` after exactly the outside calls `acts`.
pub open spec fn stopped_with(r: MintClosing, acts: Seq<MintAction>, stop: MintStop) -> bool {
    r matches MintClosing::Stopped { actions, stop: s } && actions@ == acts && s == stop
}

/// The metadata of an NFT that `mh` mints, with the magic hat's creator
/// account `creator` and the update authority account `ua`.
pub open spec fn metadata_fits(m: MintMetadata, mh: MagicHat, creator: Address, ua: Address) -> bool {
    &&& m.symbol@ == mh.data.symbol@
    &&& m.seller_fee_basis_points == mh.data.seller_fee_basis_points
    &&& m.is_mutable == mh.data.is_mutable
    &&& m.max_supply == mh.data.max_supply
    &&& m.creators@.len() == mh.data.creators@.len() + 1
    &&& m.creators@[0] == (Creator { address: creator, verified: true, share: 0 })
    &&& forall|k: int|
        0 <= k < mh.data.creators@.len() ==> #[trigger] m.creators@[k + 1] == (Creator {
            address: mh.data.creators@[k].address,
            verified: false,
            share: mh.data.creators@[k].share,
        })
    &&& m.update_authority == if mh.data.retain_authority {
        mh.authority
    } else {
        ua
    }
    &&& m.mutability == if !mh.data.is_mutable {
        Some(false)
    } else {
        None::<bool>
    }
}

/// One more item of the magic hat redeemed, by a mint that found it not
/// sold out.
pub open spec fn redemption_step(before: MagicHat, after: MagicHat) -> bool {
    &&& check_items_passes(before)
    &&& after == (MagicHat { items_redeemed: (before.items_redeemed + 1) as u64, ..before })
}

/// One spot of the whitelist entry used, by a mint that found one left.
pub open spec fn spot_used(before: WalletWhitelist, after: WalletWhitelist) -> bool {
    &&& before.number_of_whitelist_spots > 0
    &&& after == (WalletWhitelist {
        number_of_whitelist_spots: (before.number_of_whitelist_spots - 1) as u64,
        ..before
    })
}

/// The config line chosen from `index` is marked minted.
pub open spec fn line_taken(before: Seq<u8>, after: Seq<u8>, items: int, index: int) -> bool {
    chosen_line(before, items, index) matches Some(i) && after == mark_minted(before, items, i)
}

/// The payment, then the metadata of an NFT named by a line that meets
/// `line_ok`, made by the magic hat `mh` with one more item redeemed.
pub open spec fn made_nft(
    actions: Seq<MintAction>,
    pay: MintAction,
    line_ok: spec_fn(ConfigLine) -> bool,
    mh: MagicHat,
    creator: Address,
    ua: Address,
) -> bool {
    &&& actions.len() == 2
    &&& actions[0] == pay
    &&& actions[1] matches MintAction::CreateMetadata(m) && line_ok(m.line) && metadata_fits(
        m,
        MagicHat { items_redeemed: (mh.items_redeemed + 1) as u64, ..mh },
        creator,
        ua,
    )
}

/// The end of a mint once its config line is known: the payer's whitelist
/// entry must have a spot left to use.
pub open spec fn closing_end(
    pay: MintAction,
    line_ok: spec_fn(ConfigLine) -> bool,
    mh: MagicHat,
    ww: WalletWhitelist,
    creator: Address,
    ua: Address,
    r: MintClosing,
) -> bool {
    if ww.number_of_whitelist_spots == 0 {
        r matches MintClosing::Stopped { actions, stop } && made_nft(actions@, pay, line_ok, mh, creator, ua)
            && stop == MintStop::Fail(MagicHatError::NumericalOverflowError)
    } else {
        r matches MintClosing::Minted { actions, magic_hat, wallet_whitelist } && made_nft(
            actions@,
            pay,
            line_ok,
            mh,
            creator,
            ua,
        ) && magic_hat == (MagicHat { items_redeemed: (mh.items_redeemed + 1) as u64, ..mh })
            && spot_used(ww, wallet_whitelist)
    }
}

/// The mint stops after the payment because config line `i` of `data`
/// cannot be read.
pub open spec fn line_unreadable(r: MintClosing, pay: MintAction, data: Seq<u8>, i: int) -> bool {
    &&& r matches MintClosing::Stopped { actions, stop }
    &&& actions@ == seq![pay]
    &&& stop matches MintStop::Fail(e)
    &&& read_config_line(data, i, Err(e))
}

/// The random index from which a mint looks for a config line.
pub open spec fn start_index(slot_hashes: Seq<u8>, items_available: u64) -> int {
    ((spec_u64_from_le_bytes(slot_hashes.subrange(12, 20)) % items_available) as usize) as int
}

/// How a mint of the magic hat `mh`, which is not sold out, ends from the
/// payment on, for a payer with whitelist entry `ww` and `balance`; `before`
/// and `after` are the account data of the magic hat around it.
pub open spec fn closing(
    mh: MagicHat,
    ww: WalletWhitelist,
    price: u64,
    payment: Option<(usize, usize)>,
    balance: u64,
    slot_hashes: Seq<u8>,
    before: Seq<u8>,
    after: Seq<u8>,
    creator: Address,
    ua: Address,
    r: MintClosing,
) -> bool {
    let pay = MintAction::Pay { price, token_accounts: payment };
    let items = (mh.data.items_available as usize) as int;
    match balance_verdict(mh, balance, price) {
        MintVerdict::Fail(e) => after == before && stopped_with(r, seq![], MintStop::Fail(e)),
        _ => if slot_hashes.len() < 20 {
            after == before && stopped_with(r, seq![pay], MintStop::Abort(MintAbort::SlotHashesTooShort))
        } else {
            match mh.data.hidden_settings {
                Some(hs) => after == before && closing_end(
                    pay,
                    |l: ConfigLine|
                        l.name@ == hs.name@ + "#"@ + decimal_digits((mh.items_redeemed + 1) as nat)
                            && l.uri@ == hs.uri@,
                    mh,
                    ww,
                    creator,
                    ua,
                    r,
                ),
                None => if !bitmask_in_bounds(before.len() as int, items) {
                    after == before && stopped_with(
                        r,
                        seq![pay],
                        MintStop::Abort(MintAbort::BitmaskOutOfBounds),
                    )
                } else {
                    match chosen_line(before, items, start_index(slot_hashes, mh.data.items_available)) {
                        None => after == before && stopped_with(
                            r,
                            seq![pay],
                            MintStop::Fail(MagicHatError::CannotFindUsableConfigLine),
                        ),
                        Some(i) => after == mark_minted(before, items, i) && (line_unreadable(r, pay, after, i) || closing_end(
                            pay,
                            |l: ConfigLine| read_config_line(after, i, Ok(l)),
                            mh,
                            ww,
                            creator,
                            ua,
                            r,
                        )),
                    }
                },
            }
        },
    }
}

impl MintCheckout {
    /// Pays, picks and marks the config line, counts the redemption, makes
    /// the NFT's metadata and uses a whitelist spot; `balance` is the payer's
    /// balance, read after the opening calls, and `account_data` the data
    /// of the magic hat account.
    pub fn complete(
        self,
        balance: u64,
        slot_hashes: &[u8],
        account_data: &mut Vec<u8>,
        magic_hat_creator: &Address,
        update_authority: &Address,
    ) -> (r: MintClosing)
        ensures
            closing(
                self.magic_hat(),
                self.wallet_whitelist(),
                self.price(),
                self.payment(),
                balance,
                slot_hashes@,
                old(account_data)@,
                final(account_data)@,
                *magic_hat_creator,
                *update_authority,
                r,
            ),
            check_items_passes(self.magic_hat()),
            r is Minted ==> opening(self.request(), self.magic_hat(), self.wallet_whitelist()) is Checkout,
            r matches MintClosing::Stopped { stop, .. } ==> !(stop is Punish) && !(stop is PunishProgram),
            r matches MintClosing::Minted { magic_hat, wallet_whitelist, .. } ==> {
                &&& redemption_step(self.magic_hat(), magic_hat)
                &&& spot_used(self.wallet_whitelist(), wallet_whitelist)
                &&& magic_hat.items_redeemed <= magic_hat.data.items_available
                &&& balance >= self.price()
            },
            r is Minted && self.magic_hat().data.hidden_settings is None ==> line_taken(
                old(account_data)@,
                final(account_data)@,
                (self.magic_hat().data.items_available as usize) as int,
                start_index(slot_hashes@, self.magic_hat().data.items_available),
            ),
    {
        proof {
            use_type_invariant(&self);
        }
        let MintCheckout { request: _, magic_hat, wallet_whitelist, price, payment } = self;
        let mut magic_hat = magic_hat;
        let mut wallet_whitelist = wallet_whitelist;
        let pay = MintAction::Pay { price, token_accounts: payment };
        match check_balance(&magic_hat, balance, price) {
            MintVerdict::Continue => {},
            MintVerdict::Punish(e) => return MintClosing::Stopped { actions: Vec::new(), stop: MintStop::Punish(e) },
            MintVerdict::Fail(e) => return MintClosing::Stopped { actions: Vec::new(), stop: MintStop::Fail(e) },
        }
        let mut actions: Vec<MintAction> = Vec::new();
        actions.push(pay);
        if slot_hashes.len() < 20 {
            return MintClosing::Stopped { actions, stop: MintStop::Abort(MintAbort::SlotHashesTooShort) };
        }
        let index = match random_start_index(slot_hashes, magic_hat.data.items_available) {
            Ok(i) => i,
            Err(e) => return MintClosing::Stopped { actions, stop: MintStop::Fail(e) },
        };
        if magic_hat.data.hidden_settings.is_none() && !bitmask_fits(
            account_data.len(),
            magic_hat.data.items_available as usize,
        ) {
            return MintClosing::Stopped { actions, stop: MintStop::Abort(MintAbort::BitmaskOutOfBounds) };
        }
        let line = match get_config_line(&magic_hat, account_data, index, magic_hat.items_redeemed) {
            Ok(l) => l,
            Err(e) => return MintClosing::Stopped { actions, stop: MintStop::Fail(e) },
        };
        match record_redemption(&mut magic_hat) {
            Ok(()) => {},
            Err(e) => return MintClosing::Stopped { actions, stop: MintStop::Fail(e) },
        }
        let creators = mint_creators(magic_hat_creator, &magic_hat.data);
        let new_authority = new_update_authority(&magic_hat, update_authority);
        let mutability = metadata_mutability(&magic_hat);
        actions.push(
            MintAction::CreateMetadata(
                MintMetadata {
                    line,
                    symbol: magic_hat.data.symbol.clone(),
                    seller_fee_basis_points: magic_hat.data.seller_fee_basis_points,
                    creators,
                    is_mutable: magic_hat.data.is_mutable,
                    max_supply: magic_hat.data.max_supply,
                    update_authority: new_authority,
                    mutability,
                },
            ),
        );
        match consume_whitelist_spot(&mut wallet_whitelist) {
            Ok(()) => MintClosing::Minted { actions, magic_hat, wallet_whitelist },
            Err(e) => MintClosing::Stopped { actions, stop: MintStop::Fail(e) },
        }
    }
}

/// The number of calls among the first `n` that minted.
pub open spec fn mint_count(minted: Seq<bool>, n: int) -> int
    decreases n,
{
    if n <= 0 {
        0
    } else {
        mint_count(minted, n - 1) + if minted[n - 1] {
            1int
        } else {
            0int
        }
    }
}

/// `entries[t + 1]` is the whitelist entry `entries[t]` after call `t`: one
/// spot used when the call minted (`minted[t]`), unchanged when it stopped.
pub open spec fn spot_history(entries: Seq<WalletWhitelist>, minted: Seq<bool>) -> bool {
    &&& entries.len() == minted.len() + 1
    &&& forall|t: int|
        #![trigger minted[t]]
        0 <= t < minted.len() ==> if minted[t] {
            spot_used(entries[t], entries[t + 1])
        } else {
            entries[t + 1] == entries[t]
        }
}

proof fn lemma_spot_prefix(entries: Seq<WalletWhitelist>, minted: Seq<bool>, m: int)
    requires
        spot_history(entries, minted),
        0 <= m <= minted.len(),
    ensures
        entries[m].number_of_whitelist_spots == entries[0].number_of_whitelist_spots - mint_count(minted, m),
        0 <= mint_count(minted, m) <= entries[0].number_of_whitelist_spots,
    decreases m,
{
    if m > 0 {
        lemma_spot_prefix(entries, minted, m - 1);
        let p = m - 1;
        if minted[p] {
            assert(spot_used(entries[p], entries[p + 1]));
        } else {
            assert(entries[p + 1] == entries[p]);
        }
    }
}

/// Over any sequence of mints by one whitelisted wallet, with nothing else
/// changing its whitelist entry: at most as many mints succeed as the entry
/// had spots, and each that succeeds uses exactly one spot.
pub proof fn lemma_whitelist_spots_bound_mints(entries: Seq<WalletWhitelist>, minted: Seq<bool>)
    requires
        spot_history(entries, minted),
    ensures
        mint_count(minted, minted.len() as int) <= entries[0].number_of_whitelist_spots,
        entries.last().number_of_whitelist_spots == entries[0].number_of_whitelist_spots - mint_count(
            minted,
            minted.len() as int,
        ),
{
    lemma_spot_prefix(entries, minted, minted.len() as int);
}

/// `hats[t + 1]` is the magic hat `hats[t]` after call `t`: one item
/// redeemed when the call minted (`minted[t]`), unchanged when it stopped.
pub open spec fn supply_history(hats: Seq<MagicHat>, minted: Seq<bool>) -> bool {
    &&& hats.len() == minted.len() + 1
    &&& forall|t: int|
        #![trigger minted[t]]
        0 <= t < minted.len() ==> if minted[t] {
            redemption_step(hats[t], hats[t + 1])
        } else {
            hats[t + 1] == hats[t]
        }
}

proof fn lemma_supply_prefix(hats: Seq<MagicHat>, minted: Seq<bool>, m: int)
    requires
        supply_history(hats, minted),
        hats[0].items_redeemed <= hats[0].data.items_available,
        0 <= m <= minted.len(),
    ensures
        hats[m].data == hats[0].data,
        hats[m].items_redeemed == hats[0].items_redeemed + mint_count(minted, m),
        hats[m].items_redeemed <= hats[m].data.items_available,
        forall|t: int| 0 <= t <= m ==> #[trigger] hats[t].items_redeemed <= hats[t].data.items_available,
    decreases m,
{
    if m > 0 {
        lemma_supply_prefix(hats, minted, m - 1);
        let p = m - 1;
        if minted[p] {
            assert(redemption_step(hats[p], hats[p + 1]));
        } else {
            assert(hats[p + 1] == hats[p]);
        }
    }
}

/// Over any sequence of mints of one magic hat, starting within its supply:
/// redeemed items never exceed the items available, each successful mint
/// redeems exactly one, and at most as many mints succeed as items were
/// left.
pub proof fn lemma_redemptions_stay_within_supply(hats: Seq<MagicHat>, minted: Seq<bool>)
    requires
        supply_history(hats, minted),
        hats[0].items_redeemed <= hats[0].data.items_available,
    ensures
        forall|t: int|
            0 <= t < hats.len() ==> #[trigger] hats[t].items_redeemed <= hats[t].data.items_available,
        hats.last().items_redeemed == hats[0].items_redeemed + mint_count(minted, minted.len() as int),
        mint_count(minted, minted.len() as int) <= hats[0].data.items_available - hats[0].items_redeemed,
{
    lemma_supply_prefix(hats, minted, minted.len() as int);
}

/// An outside call that may come before the payment: a check of the gateway
/// token or the burn of a whitelist token.
pub open spec fn is_opening_call(a: MintAction) -> bool {
    a is VerifyGateway || a is Burn
}

/// The calls of an opening.
pub open spec fn opening_calls(o: OpeningView) -> Seq<MintAction> {
    match o {
        OpeningView::Stopped(actions, _) => actions,
        OpeningView::Checkout(actions, _, _) => actions,
    }
}

/// Before the payment a mint only checks the gateway token and burns a
/// whitelist token: a mint that stops there, a punished one among them,
/// pays nothing and creates no NFT.
pub proof fn lemma_opening_pays_nothing(req: MintRequest, mh: MagicHat, ww: WalletWhitelist)
    ensures
        forall|i: int|
            0 <= i < opening_calls(opening(req, mh, ww)).len() ==> #[trigger] is_opening_call(
                opening_calls(opening(req, mh, ww))[i],
            ),
{
    let (g, counter) = gatekeeper_layout(mh.data.gatekeeper, req.remaining@.len() as usize);
    let gate: Seq<MintAction> = if g is NotRequired || g is Refused {
        Seq::empty()
    } else {
        seq![MintAction::VerifyGateway(g)]
    };
    assert(forall|i: int| 0 <= i < gate.len() ==> #[trigger] is_opening_call(gate[i]));
    let plan = whitelist_plan(
        mh,
        req.whitelist_token,
        req.now,
        req.payer,
        req.remaining@,
        counter as int,
        ww.special_discounted_price,
    );
    if let Some(b) = plan.burn {
        let burned = gate.push(MintAction::Burn { source: counter, accounts: b });
        assert(forall|i: int| 0 <= i < burned.len() ==> #[trigger] is_opening_call(burned[i]));
    }
}

/// Instruction `k` of the sysvar `data` can be read and calls the magic hat,
/// the token program, the system program or the associated token program.
pub open spec fn calls_listed_program(ids: ProgramIds, data: Seq<u8>, k: int) -> bool {
    &&& instruction_program_id(data, k) matches Some(id)
    &&& id == ids.magic_hat@ || id == ids.spl_token@ || id == ids.system@ || id == ids.associated_token@
}

/// A mint that reaches the payment passed every check before it, stated on
/// its inputs. The running instruction belongs to the magic hat, gumdrop or
/// cupcake; the metadata account is empty and the slot hashes account is a
/// sysvar; only `set_collection_during_mint` of the magic hat may follow,
/// as the last instruction, and it must when collections are on; every
/// instruction calls the magic hat, the token, system or associated token
/// program; the sale has not ended for the payer; the gateway accounts are
/// there and checked; the payer may mint now (or early, in a presale, with
/// the whitelist token) and the supply is not used up. The price is the
/// entry's price, or the whitelist discount for a token holder; a token
/// holder in burn mode burns one token; and a sale in tokens pays from the
/// two remaining accounts after the gateway, whitelist token and burn
/// accounts.
pub proof fn lemma_checkout_passed_every_check(req: MintRequest, mh: MagicHat, ww: WalletWhitelist)
    requires
        opening(req, mh, ww) is Checkout,
    ensures
        ({
            let ids = req.ids;
            let sysvar = req.instructions_sysvar@;
            let remaining = req.remaining@;
            let gates = match mh.data.gatekeeper {
                None => 0int,
                Some(g) => if g.expire_on_use {
                    3int
                } else {
                    1int
                },
            };
            let holder = req.whitelist_token matches Some(a) && a > 0;
            let live = req.payer@ == mh.authority@ || (mh.data.go_live_date matches Some(d) && req.now
                >= d);
            let entry_price = ww.special_discounted_price;
            let burns = match mh.data.whitelist_mint_settings {
                Some(ws) => holder && ws.mode == WhitelistMintMode::BurnEveryTime,
                None => false,
            };
            &&& opening(req, mh, ww) matches OpeningView::Checkout(acts, price, pay)
            &&& req.metadata_is_empty
            &&& req.slot_hashes_key@ == ids.slot_hashes@ || req.slot_hashes_key@ == ids.block_hashes@
            &&& relative_instruction(sysvar, 0) matches Some(current) && (current.0 == ids.magic_hat@
                || current.0 == ids.gumdrop@ || current.0 == ids.cupcake@)
            &&& relative_instruction(sysvar, 1) matches Some(next) ==> next.0 == ids.magic_hat@
                && next.1.take(8) == SET_COLLECTION_DURING_MINT_DISCRIMINATOR@ && relative_instruction(
                sysvar,
                2,
            ) is None
            &&& relative_instruction(sysvar, 1) is None ==> COLLECTIONS_FEATURE_INDEX
                < mh.data.uuid@.len() && mh.data.uuid@[COLLECTIONS_FEATURE_INDEX as int] != '1'
            &&& u16_at(sysvar, 0) matches Some(n) && forall|k: int|
                0 <= k < n ==> #[trigger] calls_listed_program(ids, sysvar, k)
            &&& mh.data.end_settings matches Some(es) ==> match es.end_setting_type {
                EndSettingType::Date => req.now <= es.number as i64 || req.payer@ == mh.authority@,
                EndSettingType::Amount => mh.items_redeemed < es.number,
            }
            &&& remaining.len() >= gates
            &&& mh.items_redeemed < mh.data.items_available
            &&& match mh.data.whitelist_mint_settings {
                None => live,
                Some(ws) => if holder {
                    live || ws.presale
                } else {
                    live && (ws.discount_price is Some || ws.presale)
                },
            }
            &&& price == match mh.data.whitelist_mint_settings {
                Some(ws) => if holder {
                    match ws.discount_price {
                        Some(dp) => dp,
                        None => entry_price,
                    }
                } else {
                    entry_price
                },
                None => entry_price,
            }
            &&& acts == match mh.data.gatekeeper {
                Some(g) => seq![
                    MintAction::VerifyGateway(
                        if g.expire_on_use {
                            GatekeeperAccounts::VerifyAndExpire
                        } else {
                            GatekeeperAccounts::Verify
                        },
                    ),
                ],
                None => Seq::empty(),
            } + if burns {
                seq![
                    MintAction::Burn {
                        source: gates as usize,
                        accounts: BurnAccounts {
                            mint: (gates + 1) as usize,
                            authority: (gates + 2) as usize,
                        },
                    },
                ]
            } else {
                Seq::empty()
            }
            &&& match mh.data.whitelist_mint_settings {
                Some(ws) => burns ==> remaining[gates + 1]@ == ws.mint@,
                None => true,
            }
            &&& ({
                let n = gates + match mh.data.whitelist_mint_settings {
                    None => 0int,
                    Some(ws) => if ws.mode == WhitelistMintMode::BurnEveryTime {
                        3int
                    } else {
                        1int
                    },
                };
                pay == if mh.token_mint is Some {
                    Some((n as usize, (n + 1) as usize))
                } else {
                    None::<(usize, usize)>
                } && (mh.token_mint is Some ==> n + 1 < remaining.len())
            })
        }),
{
    let ids = req.ids;
    let sysvar = req.instructions_sysvar@;
    let allowed = allowed_seq(ids);
    assert(scan_instructions(sysvar, allowed) == ScanOutcome::AllAllowed);
    lemma_accepted_transaction_calls_only_allowed_programs(sysvar, allowed);
    assert forall|k: int| 0 <= k < u16_at(sysvar, 0).unwrap() implies #[trigger] calls_listed_program(
        ids,
        sysvar,
        k,
    ) by {
        assert(instruction_calls_allowed(sysvar, allowed, k));
        let id = instruction_program_id(sysvar, k).unwrap();
        let j = choose|j: int| 0 <= j < allowed.len() && #[trigger] allowed[j]@ == id;
        assert(0 <= j < 4);
    }
    let (g, counter) = gatekeeper_layout(mh.data.gatekeeper, req.remaining@.len() as usize);
    lemma_whitelist_plan_prices(
        mh,
        req.whitelist_token,
        req.now,
        req.payer,
        req.remaining@,
        counter as int,
        ww.special_discounted_price,
    );
}

} // verus!
