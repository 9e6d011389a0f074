//! Address balances: the node's indexed figure cross-checked against a fresh
//! sum over the address's unspent outputs.

use crate::amount::{total, wrapped_total, wrapped_total_is_exact_when_it_fits};
use crate::error::{CallFailed, ErrorKind};
use crate::hash::{lower_hex, Hash32};
use crate::text::{decimal, decimal_text};
use vstd::prelude::*;
use vstd::string::StringExecFns;

verus! {

/// How long the enumeration of an address's unspent outputs may take, in seconds.
pub const UTXO_TIME_BUDGET_SECS: u64 = 20;

/// How many unspent outputs a record keeps for display.
pub const MAX_DISPLAY_UTXOS: usize = 100;

/// One unspent output as the node lists it.
#[derive(Clone, Copy, Debug)]
pub struct UtxoRecord {
    pub transaction_id: Hash32,
    pub index: u32,
    pub amount: u64,
}

/// One unspent output as shown.
#[derive(Debug)]
pub struct UtxoInfo {
    pub outpoint: String,
    pub amount: u64,
    pub script_public_key: String,
}

/// The mathematical content of a [`UtxoInfo`].
pub struct UtxoInfoData {
    pub outpoint: Seq<char>,
    pub amount: u64,
    pub script_public_key: Seq<char>,
}

impl View for UtxoInfo {
    type V = UtxoInfoData;

    open spec fn view(&self) -> UtxoInfoData {
        UtxoInfoData {
            outpoint: self.outpoint@,
            amount: self.amount,
            script_public_key: self.script_public_key@,
        }
    }
}

impl Clone for UtxoInfo {
    fn clone(&self) -> (copy: UtxoInfo)
        ensures
            copy@ == self@,
    {
        UtxoInfo {
            outpoint: self.outpoint.clone(),
            amount: self.amount,
            script_public_key: self.script_public_key.clone(),
        }
    }
}

/// How an unspent output is shown: the outpoint as the transaction id in
/// hexadecimal, a colon and the output's index in decimal; the script as a
/// label made of the index.
pub open spec fn utxo_shown(utxo: UtxoRecord) -> UtxoInfoData {
    UtxoInfoData {
        outpoint: lower_hex(utxo.transaction_id.bytes@) + ":"@ + decimal(utxo.index as nat),
        amount: utxo.amount,
        script_public_key: "script_"@ + decimal(utxo.index as nat),
    }
}

/// Builds the display form of one unspent output.
pub fn utxo_info(utxo: &UtxoRecord) -> (info: UtxoInfo)
    ensures
        info@ == utxo_shown(*utxo),
{
    let index = decimal_text(utxo.index as u64);
    let mut outpoint = utxo.transaction_id.to_hex();
    outpoint.append(":");
    outpoint.append(index.as_str());
    let mut script_public_key = String::from_str("script_");
    script_public_key.append(index.as_str());
    UtxoInfo { outpoint, amount: utxo.amount, script_public_key }
}

/// How the enumeration of an address's unspent outputs ended.
#[derive(Debug)]
pub enum Enumeration {
    /// The node listed them all within the time budget.
    Completed(Vec<UtxoRecord>),
    /// The node call failed.
    Failed,
    /// The time budget ran out first.
    TimedOut,
}

impl View for Enumeration {
    type V = Option<Seq<UtxoRecord>>;

    open spec fn view(&self) -> Option<Seq<UtxoRecord>> {
        match self {
            Enumeration::Completed(utxos) => Some(utxos@),
            Enumeration::Failed => None,
            Enumeration::TimedOut => None,
        }
    }
}

/// The balance of one address, as one fetch found it.
#[derive(Debug)]
pub struct AddressBalanceRecord {
    pub address: String,
    /// The node's own indexed figure; kept for cross-checking only where a
    /// computed balance is present.
    pub indexed_balance: u64,
    /// The sum over the enumerated unspent outputs, where the enumeration completed.
    pub computed_balance: Option<u64>,
    pub utxo_count_total: Option<usize>,
    pub sample_utxos: Vec<UtxoInfo>,
}

/// The mathematical content of an [`AddressBalanceRecord`].
pub struct AddressBalanceData {
    pub address: Seq<char>,
    pub indexed_balance: u64,
    pub computed_balance: Option<u64>,
    pub utxo_count_total: Option<usize>,
    pub sample_utxos: Seq<UtxoInfoData>,
}

/// The views of a list of displayed outputs.
pub open spec fn utxo_views(infos: Seq<UtxoInfo>) -> Seq<UtxoInfoData> {
    Seq::new(infos.len(), |i: int| infos[i]@)
}

impl View for AddressBalanceRecord {
    type V = AddressBalanceData;

    open spec fn view(&self) -> AddressBalanceData {
        AddressBalanceData {
            address: self.address@,
            indexed_balance: self.indexed_balance,
            computed_balance: self.computed_balance,
            utxo_count_total: self.utxo_count_total,
            sample_utxos: utxo_views(self.sample_utxos@),
        }
    }
}

impl AddressBalanceData {
    /// The balance to report: the computed one where there is one, else the
    /// indexed one.
    pub open spec fn balance(self) -> u64 {
        match self.computed_balance {
            Some(computed) => computed,
            None => self.indexed_balance,
        }
    }

    /// Whether the computed balance is there and differs from the indexed one.
    pub open spec fn discrepancy(self) -> bool {
        self.computed_balance is Some && self.computed_balance->0 != self.indexed_balance
    }
}

/// The amounts of a list of unspent outputs.
pub open spec fn amounts(utxos: Seq<UtxoRecord>) -> Seq<u64> {
    Seq::new(utxos.len(), |i: int| utxos[i].amount)
}

/// The outputs kept for display: the first `MAX_DISPLAY_UTXOS`, as listed.
pub open spec fn sample_shown(utxos: Seq<UtxoRecord>) -> Seq<UtxoInfoData> {
    Seq::new(
        if utxos.len() <= MAX_DISPLAY_UTXOS {
            utxos.len()
        } else {
            MAX_DISPLAY_UTXOS as nat
        },
        |i: int| utxo_shown(utxos[i]),
    )
}

/// The record of one fetch: with the enumeration's sum, count and sample where
/// it completed (`Some`), and with the indexed balance alone where it did not.
pub open spec fn reconciled(
    address: Seq<char>,
    indexed_balance: u64,
    utxos: Option<Seq<UtxoRecord>>,
) -> AddressBalanceData {
    match utxos {
        Some(listed) => AddressBalanceData {
            address,
            indexed_balance,
            computed_balance: Some(wrapped_total(amounts(listed))),
            utxo_count_total: Some(listed.len() as usize),
            sample_utxos: sample_shown(listed),
        },
        None => AddressBalanceData {
            address,
            indexed_balance,
            computed_balance: None,
            utxo_count_total: None,
            sample_utxos: Seq::empty(),
        },
    }
}

impl AddressBalanceRecord {
    /// The balance to report.
    pub fn balance(&self) -> (amount: u64)
        ensures
            amount == self@.balance(),
    {
        match self.computed_balance {
            Some(computed) => computed,
            None => self.indexed_balance,
        }
    }

    /// Whether the two balances disagree. This is for the log: it is no error.
    pub fn discrepancy(&self) -> (differs: bool)
        ensures
            differs == self@.discrepancy(),
    {
        match self.computed_balance {
            Some(computed) => computed != self.indexed_balance,
            None => false,
        }
    }
}

impl Clone for AddressBalanceRecord {
    fn clone(&self) -> (copy: AddressBalanceRecord)
        ensures
            copy@ == self@,
    {
        let mut sample_utxos: Vec<UtxoInfo> = Vec::new();
        let mut i: usize = 0;
        while i < self.sample_utxos.len()
            invariant
                i <= self.sample_utxos.len(),
                utxo_views(sample_utxos@) == utxo_views(self.sample_utxos@.take(i as int)),
            decreases self.sample_utxos.len() - i,
        {
            let ghost before = sample_utxos@;
            let info = self.sample_utxos[i].clone();
            sample_utxos.push(info);
            assert(utxo_views(sample_utxos@) =~= utxo_views(before).push(info@));
            assert(utxo_views(self.sample_utxos@.take(i + 1)) =~= utxo_views(
                self.sample_utxos@.take(i as int),
            ).push(self.sample_utxos@[i as int]@));
            i += 1;
        }
        assert(self.sample_utxos@.take(i as int) =~= self.sample_utxos@);
        AddressBalanceRecord {
            address: self.address.clone(),
            indexed_balance: self.indexed_balance,
            computed_balance: self.computed_balance,
            utxo_count_total: self.utxo_count_total,
            sample_utxos,
        }
    }
}

/// Puts the indexed balance and the outcome of the enumeration into one record.
/// A failed or timed-out enumeration is no error: the record then carries the
/// indexed balance alone.
pub fn reconcile(address: String, indexed_balance: u64, outcome: Enumeration) -> (record:
    AddressBalanceRecord)
    ensures
        record@ == reconciled(address@, indexed_balance, outcome@),
{
    match outcome {
        Enumeration::Completed(utxos) => {
            let mut sum: u64 = 0;
            let mut sample_utxos: Vec<UtxoInfo> = Vec::new();
            let mut i: usize = 0;
            while i < utxos.len()
                invariant
                    i <= utxos.len(),
                    sum == wrapped_total(amounts(utxos@.take(i as int))),
                    utxo_views(sample_utxos@) == sample_shown(utxos@.take(i as int)),
                decreases utxos.len() - i,
            {
                let ghost before = sample_utxos@;
                proof {
                    assert(amounts(utxos@.take(i + 1)).drop_last() =~= amounts(
                        utxos@.take(i as int),
                    ));
                }
                sum = sum.wrapping_add(utxos[i].amount);
                if i < MAX_DISPLAY_UTXOS {
                    let info = utxo_info(&utxos[i]);
                    sample_utxos.push(info);
                    assert(utxo_views(sample_utxos@) =~= utxo_views(before).push(info@));
                }
                assert(utxo_views(sample_utxos@) =~= sample_shown(utxos@.take(i + 1)));
                i += 1;
            }
            assert(utxos@.take(i as int) =~= utxos@);
            AddressBalanceRecord {
                address,
                indexed_balance,
                computed_balance: Some(sum),
                utxo_count_total: Some(utxos.len()),
                sample_utxos,
            }
        },
        _ => {
            let sample_utxos: Vec<UtxoInfo> = Vec::new();
            assert(utxo_views(sample_utxos@) =~= Seq::empty());
            AddressBalanceRecord {
                address,
                indexed_balance,
                computed_balance: None,
                utxo_count_total: None,
                sample_utxos,
            }
        },
    }
}

/// Where the enumeration completed, the computed balance is the one reported,
/// whether or not it agrees with the indexed one; a disagreement is recorded
/// and is no error.
pub proof fn computed_balance_wins(
    address: Seq<char>,
    indexed_balance: u64,
    utxos: Seq<UtxoRecord>,
)
    requires
        total(amounts(utxos)) <= u64::MAX,
    ensures
        reconciled(address, indexed_balance, Some(utxos)).balance() == total(amounts(utxos)),
        reconciled(address, indexed_balance, Some(utxos)).discrepancy() <==> indexed_balance
            != total(amounts(utxos)),
{
    wrapped_total_is_exact_when_it_fits(amounts(utxos));
}

/// Where the enumeration did not complete, the record has no computed
/// balance and reports the indexed one.
pub proof fn indexed_balance_stands_alone(address: Seq<char>, indexed_balance: u64)
    ensures
        reconciled(address, indexed_balance, None).computed_balance is None,
        reconciled(address, indexed_balance, None).balance() == indexed_balance,
        !reconciled(address, indexed_balance, None).discrepancy(),
        reconciled(address, indexed_balance, None).sample_utxos.len() == 0,
{
}

/// A record never shows more than `MAX_DISPLAY_UTXOS` outputs, and shows all
/// of them where there are no more than that.
pub proof fn sample_is_bounded(address: Seq<char>, indexed_balance: u64, utxos: Seq<UtxoRecord>)
    ensures
        reconciled(address, indexed_balance, Some(utxos)).sample_utxos.len() <= MAX_DISPLAY_UTXOS,
        utxos.len() <= MAX_DISPLAY_UTXOS ==> reconciled(
            address,
            indexed_balance,
            Some(utxos),
        ).sample_utxos.len() == utxos.len(),
{
}

/// The parsed form of an address, as the node's client takes it. The library
/// carries it from the parse to the calls and reads nothing in it.
#[verifier::external_type_specification]
#[verifier::external_body]
pub struct ExAddress(kaspa_addresses::Address);

/// Why a text is no address. The library tells none of the reasons apart.
#[verifier::external_type_specification]
#[verifier::external_body]
pub struct ExAddressError(kaspa_addresses::AddressError);

/// Whether `kaspa_addresses` accepts `text` as an address: a known network
/// prefix, a colon, and a payload in the address alphabet with a valid checksum,
/// version and length.
pub uninterp spec fn address_parses(text: Seq<char>) -> bool;

/// Parses an address with `TryFrom<&str>` of `kaspa_addresses::Address`. The
/// outcome depends on the text alone, and a text without a colon has no
/// prefix and is rejected.
#[verifier::external_body]
fn parse_address(text: &str) -> (parsed: Result<kaspa_addresses::Address, kaspa_addresses::AddressError>)
    ensures
        parsed is Ok <==> address_parses(text@),
        !text@.contains(':') ==> parsed is Err,
{
    kaspa_addresses::Address::try_from(text)
}

/// Why a balance request failed.
#[derive(Clone, Copy, Debug, PartialEq, Eq, Structural)]
pub enum BalanceError {
    /// The process holds no connection to the node.
    NotConnected,
    /// The address text does not parse.
    InvalidAddress,
    /// The node did not answer the call that tells whether it indexes unspent outputs.
    InfoUnavailable,
    /// The node runs without its index of unspent outputs.
    NotUtxoIndexed,
    /// The node did not answer the call for the indexed balance.
    IndexedBalanceUnavailable,
}

impl BalanceError {
    /// The kind each failure is reported as.
    pub open spec fn kind_of(self) -> ErrorKind {
        match self {
            BalanceError::NotConnected => ErrorKind::ServiceUnavailable,
            BalanceError::InvalidAddress => ErrorKind::InvalidInput,
            BalanceError::InfoUnavailable => ErrorKind::UpstreamError,
            BalanceError::NotUtxoIndexed => ErrorKind::ServiceUnavailable,
            BalanceError::IndexedBalanceUnavailable => ErrorKind::UpstreamError,
        }
    }

    /// The text each failure is reported with.
    pub open spec fn message_of(self) -> Seq<char> {
        match self {
            BalanceError::NotConnected => "Not connected to kaspad"@,
            BalanceError::InvalidAddress => "Invalid address"@,
            BalanceError::InfoUnavailable => "Failed to query kaspad info"@,
            BalanceError::NotUtxoIndexed => "Address balance requires kaspad to run with --utxoindex"@,
            BalanceError::IndexedBalanceUnavailable => "Failed to fetch indexed balance (is --utxoindex enabled?)"@,
        }
    }

    /// The kind of this failure.
    pub fn kind(&self) -> (kind: ErrorKind)
        ensures
            kind == self.kind_of(),
    {
        match self {
            BalanceError::NotConnected => ErrorKind::ServiceUnavailable,
            BalanceError::InvalidAddress => ErrorKind::InvalidInput,
            BalanceError::InfoUnavailable => ErrorKind::UpstreamError,
            BalanceError::NotUtxoIndexed => ErrorKind::ServiceUnavailable,
            BalanceError::IndexedBalanceUnavailable => ErrorKind::UpstreamError,
        }
    }

    /// The text to report this failure with.
    pub fn message(&self) -> (text: String)
        ensures
            text@ == self.message_of(),
    {
        match self {
            BalanceError::NotConnected => String::from_str("Not connected to kaspad"),
            BalanceError::InvalidAddress => String::from_str("Invalid address"),
            BalanceError::InfoUnavailable => String::from_str("Failed to query kaspad info"),
            BalanceError::NotUtxoIndexed => String::from_str(
                "Address balance requires kaspad to run with --utxoindex",
            ),
            BalanceError::IndexedBalanceUnavailable => String::from_str(
                "Failed to fetch indexed balance (is --utxoindex enabled?)",
            ),
        }
    }
}

/// How a whole balance request ends, given the address text and what the node
/// answers to each call. The calls are made in this order, and none is made
/// after a failure: whether the node indexes unspent outputs (`info`), the
/// indexed balance (`indexed`), the enumeration (`utxos`, `None` where it failed
/// or timed out).
pub open spec fn balance_outcome(
    connected: bool,
    address: Seq<char>,
    info: Result<bool, CallFailed>,
    indexed: Result<u64, CallFailed>,
    utxos: Option<Seq<UtxoRecord>>,
) -> Result<AddressBalanceData, BalanceError> {
    if !connected {
        Err(BalanceError::NotConnected)
    } else if !address_parses(address) {
        Err(BalanceError::InvalidAddress)
    } else if info is Err {
        Err(BalanceError::InfoUnavailable)
    } else if !info->Ok_0 {
        Err(BalanceError::NotUtxoIndexed)
    } else if indexed is Err {
        Err(BalanceError::IndexedBalanceUnavailable)
    } else {
        Ok(reconciled(address, indexed->Ok_0, utxos))
    }
}

/// A balance request that waits to learn whether the node indexes unspent outputs.
#[derive(Debug)]
pub struct IndexCheck {
    address: String,
    parsed: kaspa_addresses::Address,
}

/// A balance request that waits for the indexed balance.
#[derive(Debug)]
pub struct IndexedFetch {
    address: String,
    parsed: kaspa_addresses::Address,
}

/// A balance request that waits for the enumeration of unspent outputs, to be
/// made under `UTXO_TIME_BUDGET_SECS`.
#[derive(Debug)]
pub struct UtxoScan {
    address: String,
    parsed: kaspa_addresses::Address,
    indexed_balance: u64,
}

/// Opens a balance request on the outcome of the parse: a text that parsed
/// goes on to the node, one that did not is refused.
pub fn open_parsed(
    address: &str,
    parsed: Result<kaspa_addresses::Address, kaspa_addresses::AddressError>,
) -> (opened: Result<IndexCheck, BalanceError>)
    ensures
        parsed is Err ==> opened == Err::<IndexCheck, BalanceError>(BalanceError::InvalidAddress),
        parsed is Ok ==> opened is Ok && opened->Ok_0.address_text() == address@
            && opened->Ok_0.parsed_address() == parsed->Ok_0,
{
    match parsed {
        Ok(parsed) => Ok(IndexCheck { address: address.to_owned(), parsed }),
        Err(_) => Err(BalanceError::InvalidAddress),
    }
}

/// Opens a balance request. Nothing is asked of the node here: a request made
/// without a connection, or for a text that is no address, ends at once.
pub fn begin(connected: bool, address: &str) -> (opened: Result<IndexCheck, BalanceError>)
    ensures
        !connected ==> opened == Err::<IndexCheck, BalanceError>(BalanceError::NotConnected),
        connected && !address_parses(address@) ==> opened == Err::<IndexCheck, BalanceError>(
            BalanceError::InvalidAddress,
        ),
        connected && !address@.contains(':') ==> opened == Err::<IndexCheck, BalanceError>(
            BalanceError::InvalidAddress,
        ),
        connected && address_parses(address@) ==> opened is Ok && opened->Ok_0.address_text()
            == address@,
{
    if !connected {
        return Err(BalanceError::NotConnected);
    }
    open_parsed(address, parse_address(address))
}

impl IndexCheck {
    /// The address text this request was opened with.
    pub closed spec fn address_text(&self) -> Seq<char> {
        self.address@
    }

    /// The parsed address this request carries.
    pub closed spec fn parsed_address(&self) -> kaspa_addresses::Address {
        self.parsed
    }

    /// The parsed address, for the node calls.
    pub fn parsed(&self) -> (address: &kaspa_addresses::Address)
        ensures
            *address == self.parsed_address(),
    {
        &self.parsed
    }

    /// Takes the node's answer on whether it indexes unspent outputs.
    pub fn on_info(self, reply: Result<bool, CallFailed>) -> (next: Result<
        IndexedFetch,
        BalanceError,
    >)
        ensures
            reply is Err ==> next == Err::<IndexedFetch, BalanceError>(
                BalanceError::InfoUnavailable,
            ),
            reply == Ok::<bool, CallFailed>(false) ==> next == Err::<IndexedFetch, BalanceError>(
                BalanceError::NotUtxoIndexed,
            ),
            reply == Ok::<bool, CallFailed>(true) ==> next is Ok && next->Ok_0.address_text()
                == self.address_text() && next->Ok_0.parsed_address() == self.parsed_address(),
    {
        match reply {
            Err(_) => Err(BalanceError::InfoUnavailable),
            Ok(false) => Err(BalanceError::NotUtxoIndexed),
            Ok(true) => Ok(IndexedFetch { address: self.address, parsed: self.parsed }),
        }
    }
}

impl IndexedFetch {
    /// The address text this request was opened with.
    pub closed spec fn address_text(&self) -> Seq<char> {
        self.address@
    }

    /// The parsed address this request carries.
    pub closed spec fn parsed_address(&self) -> kaspa_addresses::Address {
        self.parsed
    }

    /// The parsed address, for the node calls.
    pub fn parsed(&self) -> (address: &kaspa_addresses::Address)
        ensures
            *address == self.parsed_address(),
    {
        &self.parsed
    }

    /// Takes the node's answer to the call for the indexed balance. A failure
    /// here ends the request.
    pub fn on_indexed_balance(self, reply: Result<u64, CallFailed>) -> (next: Result<
        UtxoScan,
        BalanceError,
    >)
        ensures
            reply is Err ==> next == Err::<UtxoScan, BalanceError>(
                BalanceError::IndexedBalanceUnavailable,
            ),
            reply is Ok ==> next is Ok && next->Ok_0.address_text() == self.address_text()
                && next->Ok_0.parsed_address() == self.parsed_address()
                && next->Ok_0.indexed_balance() == reply->Ok_0,
    {
        match reply {
            Err(_) => Err(BalanceError::IndexedBalanceUnavailable),
            Ok(indexed_balance) => Ok(
                UtxoScan { address: self.address, parsed: self.parsed, indexed_balance },
            ),
        }
    }
}

impl UtxoScan {
    /// The address text this request was opened with.
    pub closed spec fn address_text(&self) -> Seq<char> {
        self.address@
    }

    /// The indexed balance the node reported.
    pub closed spec fn indexed_balance(&self) -> u64 {
        self.indexed_balance
    }

    /// The parsed address this request carries.
    pub closed spec fn parsed_address(&self) -> kaspa_addresses::Address {
        self.parsed
    }

    /// The parsed address, for the node calls.
    pub fn parsed(&self) -> (address: &kaspa_addresses::Address)
        ensures
            *address == self.parsed_address(),
    {
        &self.parsed
    }

    /// Takes the outcome of the enumeration and closes the request: the record
    /// is made, replaces whatever the cache held for the address, and is returned.
    pub fn on_utxos(self, outcome: Enumeration, cache: &mut BalanceCache) -> (record:
        AddressBalanceRecord)
        ensures
            record@ == reconciled(self.address_text(), self.indexed_balance(), outcome@),
            final(cache)@ == old(cache)@.insert(record@.address, record@),
    {
        let record = reconcile(self.address, self.indexed_balance, outcome);
        cache.replace(record.clone());
        record
    }
}

/// The latest record of each address asked for. No address occurs twice.
#[derive(Debug)]
pub struct BalanceCache {
    entries: Vec<AddressBalanceRecord>,
}

impl View for BalanceCache {
    type V = Map<Seq<char>, AddressBalanceData>;

    closed spec fn view(&self) -> Map<Seq<char>, AddressBalanceData> {
        cache_map(self.entries@)
    }
}

/// The records of a list, by address.
pub open spec fn cache_map(entries: Seq<AddressBalanceRecord>) -> Map<
    Seq<char>,
    AddressBalanceData,
> {
    Map::new(
        |address: Seq<char>| exists|i: int| 0 <= i < entries.len() && entries[i]@.address == address,
        |address: Seq<char>|
            entries[choose|i: int| 0 <= i < entries.len() && entries[i]@.address == address]@,
    )
}

/// Whether no two records of a list share an address.
pub open spec fn addresses_distinct(entries: Seq<AddressBalanceRecord>) -> bool {
    forall|i: int, j: int|
        0 <= i < j < entries.len() ==> entries[i]@.address != entries[j]@.address
}

/// In a list without repeated addresses, each record is the one stored under
/// its address.
proof fn cache_map_holds_each(entries: Seq<AddressBalanceRecord>, i: int)
    requires
        addresses_distinct(entries),
        0 <= i < entries.len(),
    ensures
        cache_map(entries).dom().contains(entries[i]@.address),
        cache_map(entries)[entries[i]@.address] == entries[i]@,
{
    let address = entries[i]@.address;
    let j = choose|j: int| 0 <= j < entries.len() && entries[j]@.address == address;
    assert(i == j);
}

impl BalanceCache {
    #[verifier::type_invariant]
    spec fn no_address_twice(self) -> bool {
        addresses_distinct(self.entries@)
    }

    /// An empty cache.
    pub fn new() -> (cache: BalanceCache)
        ensures
            cache@ == Map::<Seq<char>, AddressBalanceData>::empty(),
    {
        let cache = BalanceCache { entries: Vec::new() };
        assert(cache@ =~= Map::<Seq<char>, AddressBalanceData>::empty());
        cache
    }

    /// Where `address` stands in the list, if it does.
    fn position(&self, address: &String) -> (found: Option<usize>)
        ensures
            match found {
                Some(i) => i < self.entries@.len() && self.entries@[i as int]@.address == address@,
                None => forall|j: int|
                    0 <= j < self.entries@.len() ==> self.entries@[j]@.address != address@,
            },
    {
        let mut i: usize = 0;
        while i < self.entries.len()
            invariant
                i <= self.entries@.len(),
                forall|j: int| 0 <= j < i ==> self.entries@[j]@.address != address@,
            decreases self.entries@.len() - i,
        {
            if self.entries[i].address == *address {
                return Some(i);
            }
            i += 1;
        }
        None
    }

    /// A copy of the record stored for `address`, if there is one.
    pub fn get(&self, address: &String) -> (found: Option<AddressBalanceRecord>)
        ensures
            match found {
                Some(record) => self@.dom().contains(address@) && record@ == self@[address@],
                None => !self@.dom().contains(address@),
            },
    {
        proof {
            use_type_invariant(self);
        }
        match self.position(address) {
            Some(i) => {
                proof {
                    cache_map_holds_each(self.entries@, i as int);
                }
                Some(self.entries[i].clone())
            },
            None => None,
        }
    }

    /// Stores `record` under its address, in place of whatever was there.
    pub fn replace(&mut self, record: AddressBalanceRecord)
        ensures
            final(self)@ == old(self)@.insert(record@.address, record@),
    {
        proof {
            use_type_invariant(&*self);
        }
        let ghost before = self.entries@;
        let found = self.position(&record.address);
        let mut entries: Vec<AddressBalanceRecord> = Vec::new();
        core::mem::swap(&mut self.entries, &mut entries);
        match found {
            Some(i) => {
                entries[i] = record;
                proof {
                    assert(entries@[i as int]@.address == record@.address);
                    overwrite_is_insert(before, entries@, i as int);
                }
            },
            None => {
                entries.push(record);
                proof {
                    push_is_insert(before, entries@);
                }
            },
        }
        self.entries = entries;
    }

    /// How many addresses the cache holds.
    pub fn len(&self) -> (n: usize)
        ensures
            n == self@.dom().len(),
            self@.dom().finite(),
    {
        proof {
            use_type_invariant(self);
            cache_map_size(self.entries@);
        }
        self.entries.len()
    }
}

/// Overwriting the record of an address is an insertion under that address.
proof fn overwrite_is_insert(
    before: Seq<AddressBalanceRecord>,
    after: Seq<AddressBalanceRecord>,
    i: int,
)
    requires
        addresses_distinct(before),
        0 <= i < before.len(),
        after.len() == before.len(),
        after[i]@.address == before[i]@.address,
        forall|j: int| 0 <= j < before.len() && j != i ==> after[j] == before[j],
    ensures
        addresses_distinct(after),
        cache_map(after) == cache_map(before).insert(after[i]@.address, after[i]@),
{
    let target = cache_map(before).insert(after[i]@.address, after[i]@);
    assert forall|a: int, b: int| 0 <= a < b < after.len() implies after[a]@.address
        != after[b]@.address by {
        assert(after[a]@.address == before[a]@.address);
        assert(after[b]@.address == before[b]@.address);
    }
    assert forall|address: Seq<char>|
        cache_map(after).dom().contains(address) <==> target.dom().contains(address) by {
        if cache_map(after).dom().contains(address) {
            let j = choose|j: int| 0 <= j < after.len() && after[j]@.address == address;
            assert(before[j]@.address == address);
        }
        if cache_map(before).dom().contains(address) {
            let j = choose|j: int| 0 <= j < before.len() && before[j]@.address == address;
            assert(after[j]@.address == address);
        }
    }
    assert forall|address: Seq<char>| cache_map(after).dom().contains(address) implies cache_map(
        after,
    )[address] == target[address] by {
        let j = choose|j: int| 0 <= j < after.len() && after[j]@.address == address;
        cache_map_holds_each(after, j);
        if j != i {
            assert(before[j]@.address == address);
            cache_map_holds_each(before, j);
        }
    }
    assert(cache_map(after) =~= target);
}

/// Appending the record of a new address is an insertion under that address.
proof fn push_is_insert(before: Seq<AddressBalanceRecord>, after: Seq<AddressBalanceRecord>)
    requires
        addresses_distinct(before),
        after.len() == before.len() + 1,
        forall|j: int| 0 <= j < before.len() ==> after[j] == before[j],
        forall|j: int| 0 <= j < before.len() ==> before[j]@.address != after.last()@.address,
    ensures
        addresses_distinct(after),
        cache_map(after) == cache_map(before).insert(after.last()@.address, after.last()@),
{
    let target = cache_map(before).insert(after.last()@.address, after.last()@);
    let n = before.len() as int;
    assert(after[n] == after.last());
    assert forall|a: int, b: int| 0 <= a < b < after.len() implies after[a]@.address
        != after[b]@.address by {
        assert(after[a] == before[a]);
        if b < n {
            assert(after[b] == before[b]);
        }
    }
    assert forall|address: Seq<char>|
        cache_map(after).dom().contains(address) <==> target.dom().contains(address) by {
        if cache_map(after).dom().contains(address) {
            let j = choose|j: int| 0 <= j < after.len() && after[j]@.address == address;
            if j < n {
                assert(before[j]@.address == address);
            }
        }
        if cache_map(before).dom().contains(address) {
            let j = choose|j: int| 0 <= j < before.len() && before[j]@.address == address;
            assert(after[j]@.address == address);
        }
    }
    assert forall|address: Seq<char>| cache_map(after).dom().contains(address) implies cache_map(
        after,
    )[address] == target[address] by {
        let j = choose|j: int| 0 <= j < after.len() && after[j]@.address == address;
        cache_map_holds_each(after, j);
        if j < n {
            assert(before[j]@.address == address);
            cache_map_holds_each(before, j);
        }
    }
    assert(cache_map(after) =~= target);
}

/// A list without repeated addresses stores as many records as it is long.
proof fn cache_map_size(entries: Seq<AddressBalanceRecord>)
    requires
        addresses_distinct(entries),
    ensures
        cache_map(entries).dom().finite(),
        cache_map(entries).dom().len() == entries.len(),
    decreases entries.len(),
{
    if entries.len() == 0 {
        assert(cache_map(entries).dom() =~= Set::<Seq<char>>::empty());
    } else {
        let init = entries.drop_last();
        let last = entries.last();
        cache_map_size(init);
        assert forall|address: Seq<char>|
            cache_map(entries).dom().contains(address) <==> cache_map(init).dom().insert(
                last@.address,
            ).contains(address) by {
            if cache_map(entries).dom().contains(address) {
                let j = choose|j: int| 0 <= j < entries.len() && entries[j]@.address == address;
                if j < init.len() {
                    assert(init[j]@.address == address);
                }
            }
            if cache_map(init).dom().contains(address) {
                let j = choose|j: int| 0 <= j < init.len() && init[j]@.address == address;
                assert(entries[j]@.address == address);
            }
            assert(entries[entries.len() - 1]@.address == last@.address);
        }
        assert(cache_map(entries).dom() =~= cache_map(init).dom().insert(last@.address));
        if cache_map(init).dom().contains(last@.address) {
            let j = choose|j: int| 0 <= j < init.len() && init[j]@.address == last@.address;
            assert(entries[j]@.address == entries[entries.len() - 1]@.address);
        }
    }
}

/// A request for a text that is no address ends in `InvalidAddress` whatever
/// the node would have answered: no node call is reached.
pub proof fn bad_address_is_refused_first(
    address: Seq<char>,
    info: Result<bool, CallFailed>,
    indexed: Result<u64, CallFailed>,
    utxos: Option<Seq<UtxoRecord>>,
)
    requires
        !address_parses(address),
    ensures
        balance_outcome(true, address, info, indexed, utxos) == Err::<
            AddressBalanceData,
            BalanceError,
        >(BalanceError::InvalidAddress),
        BalanceError::InvalidAddress.kind_of() == ErrorKind::InvalidInput,
{
}

/// Once the indexed balance is in, the request cannot fail any more: whatever
/// the enumeration does, a record comes back, and it reports the computed
/// balance where the enumeration completed and the indexed one where not.
pub proof fn enumeration_never_fails_the_request(
    address: Seq<char>,
    indexed_balance: u64,
    utxos: Option<Seq<UtxoRecord>>,
)
    requires
        address_parses(address),
    ensures
        balance_outcome(true, address, Ok(true), Ok(indexed_balance), utxos) is Ok,
        balance_outcome(true, address, Ok(true), Ok(indexed_balance), utxos)->Ok_0.balance() == (
        match utxos {
            Some(listed) => wrapped_total(amounts(listed)),
            None => indexed_balance,
        }),
{
}

} // verus!
