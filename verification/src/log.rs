//! The log seam: where a run's records leave the process.
//!
//! One trait and three record types: the per-tick series, the event stream
//! and the decision-provenance table. [`Sink`] is the seam; [`NullSink`]
//! writes nothing and [`VecSink`] keeps the records in memory. The disk
//! writer lives with the program, outside this library.
//!
//! The column lists of the two tables, and the published schema of all three
//! files, are declared here once: every writer and every reader takes them
//! from here. Every column is an integer or a string; nothing fractional
//! reaches a file.

use vstd::prelude::*;
use crate::books::{Books, BooksView};
use crate::ids::{Account, account_text};
use crate::text::{empty_text, push_char, push_text};

verus! {

broadcast use crate::money::Money::lemma_from_cents;

/// The per-tick series.
pub const TICKS_FILE: &'static str = "ticks.csv";

/// The event stream, one record per line.
pub const EVENTS_FILE: &'static str = "events.jsonl";

/// The decision-provenance table.
pub const PROVENANCE_FILE: &'static str = "provenance.csv";

/// The run's metadata.
pub const RUN_META_FILE: &'static str = "run_meta.json";

/// The version of the published schema.
pub const SCHEMA_VERSION: &'static str = "v1";

/// Where the published schema is committed.
pub const SCHEMA_FILE: &'static str = "schema/schema.json";

/// The command that regenerates the committed schema.
pub const SCHEMA_REGEN_COMMAND: &'static str = "cargo run --locked --quiet -- --dump-schema > schema/schema.json";

/// What [`first_difference`] reports for a line one side does not have.
pub const NO_SUCH_LINE: &'static str = "<no such line>";

/// `std::io::Error`, held opaque: a sink's `finish` may hand one back.
#[verifier::external_type_specification]
#[verifier::external_body]
pub struct ExIoError(std::io::Error);

/// One row of the per-tick series. Every field is an integer.
#[derive(Debug, Clone, Copy, PartialEq, Eq, Structural)]
pub struct TickRow {
    pub tick: u32,
    pub total_money_cents: i64,
    pub firm_cash_cents: i64,
    pub stock_units: i64,
    pub headcount: u64,
    pub transactions: u32,
    pub rng_draws: u32,
    pub activation_digest: i64,
    pub postings: u32,
}

/// One record of the event stream. Addresses travel as their rendered
/// strings; amounts as integer cents or units.
#[derive(Debug, Clone, PartialEq, Eq)]
pub enum Event {
    Hire { tick: u32, firm: String, household: String, wage_cents: i64 },
    Fire { tick: u32, firm: String, household: String },
    Dividend { tick: u32, firm: String, household: String, amount_cents: i64 },
    Bankruptcy { tick: u32, firm: String, residual_cents: i64 },
    Endowment { tick: u32, account: String, cash_cents: i64, units: i64 },
}

/// What a provenance row records a decision about.
#[derive(Debug, Clone, Copy, PartialEq, Eq, PartialOrd, Ord, Hash, Structural)]
pub enum Decision {
    Price,
    Wage,
    Hire,
}

/// Which rule produced a provenance row's outcome.
#[derive(Debug, Clone, Copy, PartialEq, Eq, PartialOrd, Ord, Hash, Structural)]
pub enum Rule {
    Raised,
    Lowered,
    Held,
    Bounded,
}

/// The written spelling of a decision.
pub open spec fn decision_text(d: Decision) -> Seq<char> {
    match d {
        Decision::Price => "price"@,
        Decision::Wage => "wage"@,
        Decision::Hire => "hire"@,
    }
}

/// The written spelling of a rule.
pub open spec fn rule_text(r: Rule) -> Seq<char> {
    match r {
        Rule::Raised => "raised"@,
        Rule::Lowered => "lowered"@,
        Rule::Held => "held"@,
        Rule::Bounded => "bounded"@,
    }
}

impl Decision {
    /// The closed vocabulary, in declaration order.
    pub fn all() -> (ds: Vec<Decision>)
        ensures
            ds@ == seq![Decision::Price, Decision::Wage, Decision::Hire],
    {
        let mut ds: Vec<Decision> = Vec::new();
        ds.push(Decision::Price);
        ds.push(Decision::Wage);
        ds.push(Decision::Hire);
        assert(ds@ =~= seq![Decision::Price, Decision::Wage, Decision::Hire]);
        ds
    }

    /// The written spelling.
    pub fn name(self) -> (s: &'static str)
        ensures
            s@ == decision_text(self),
    {
        match self {
            Decision::Price => "price",
            Decision::Wage => "wage",
            Decision::Hire => "hire",
        }
    }
}

impl Rule {
    /// The closed vocabulary, in declaration order.
    pub fn all() -> (rs: Vec<Rule>)
        ensures
            rs@ == seq![Rule::Raised, Rule::Lowered, Rule::Held, Rule::Bounded],
    {
        let mut rs: Vec<Rule> = Vec::new();
        rs.push(Rule::Raised);
        rs.push(Rule::Lowered);
        rs.push(Rule::Held);
        rs.push(Rule::Bounded);
        assert(rs@ =~= seq![Rule::Raised, Rule::Lowered, Rule::Held, Rule::Bounded]);
        rs
    }

    /// The written spelling.
    pub fn name(self) -> (s: &'static str)
        ensures
            s@ == rule_text(self),
    {
        match self {
            Rule::Raised => "raised",
            Rule::Lowered => "lowered",
            Rule::Held => "held",
            Rule::Bounded => "bounded",
        }
    }
}

/// One row of the decision-provenance table.
#[derive(Debug, Clone, PartialEq, Eq)]
pub struct ProvenanceRow {
    pub tick: u32,
    /// The deciding agent's rendered address.
    pub agent: String,
    pub decision: Decision,
    pub input_a: i64,
    pub input_b: i64,
    pub outcome: i64,
    pub rule: Rule,
}

/// The per-tick series' columns, in file order.
pub open spec fn tick_column_names() -> Seq<Seq<char>> {
    seq![
        "tick"@,
        "total_money_cents"@,
        "firm_cash_cents"@,
        "stock_units"@,
        "headcount"@,
        "transactions"@,
        "rng_draws"@,
        "activation_digest"@,
        "postings"@,
    ]
}

/// The provenance table's columns, in file order.
pub open spec fn provenance_column_names() -> Seq<Seq<char>> {
    seq!["tick"@, "agent"@, "decision"@, "input_a"@, "input_b"@, "outcome"@, "rule"@]
}

/// Owned strings from string views.
fn owned(names: &Vec<&'static str>) -> (r: Vec<String>)
    ensures
        r@.len() == names@.len(),
        forall|i: int| 0 <= i < r@.len() ==> #[trigger] r@[i]@ == names@[i]@,
{
    let mut r: Vec<String> = Vec::new();
    let mut i: usize = 0;
    while i < names.len()
        invariant
            i <= names@.len(),
            r@.len() == i,
            forall|k: int| 0 <= k < i ==> #[trigger] r@[k]@ == names@[k]@,
        decreases names.len() - i,
    {
        let mut s = empty_text();
        push_text(&mut s, names[i]);
        r.push(s);
        i = i + 1;
    }
    r
}

/// The per-tick series' header: its column names, in file order.
pub fn ticks_header() -> (h: Vec<String>)
    ensures
        h@.len() == tick_column_names().len(),
        forall|i: int| 0 <= i < h@.len() ==> #[trigger] h@[i]@ == tick_column_names()[i],
{
    let mut names: Vec<&'static str> = Vec::new();
    names.push("tick");
    names.push("total_money_cents");
    names.push("firm_cash_cents");
    names.push("stock_units");
    names.push("headcount");
    names.push("transactions");
    names.push("rng_draws");
    names.push("activation_digest");
    names.push("postings");
    owned(&names)
}

/// The provenance table's header: its column names, in file order.
pub fn provenance_header() -> (h: Vec<String>)
    ensures
        h@.len() == provenance_column_names().len(),
        forall|i: int| 0 <= i < h@.len() ==> #[trigger] h@[i]@ == provenance_column_names()[i],
{
    let mut names: Vec<&'static str> = Vec::new();
    names.push("tick");
    names.push("agent");
    names.push("decision");
    names.push("input_a");
    names.push("input_b");
    names.push("outcome");
    names.push("rule");
    owned(&names)
}

/// Whether `e` is the endowment record of the account at walk position `i`
/// of `v`, at `tick`: its rendered address, its cash and its units.
pub open spec fn is_endowment_of(e: Event, v: BooksView, i: int, tick: u32) -> bool {
    e matches Event::Endowment { tick: t, account, cash_cents, units } && t == tick && account@
        == account_text(v.account_at(i)) && cash_cents == v.balances()[i] && units
        == v.stocks()[i]
}

/// One endowment record per account, in the books' walk order, each carrying
/// the account's rendered address, its cash and its units of every good.
/// Read from the books' accessors, not from any journal.
pub fn endowment_events(books: &Books, tick: u32) -> (events: Vec<Event>)
    requires
        books.inv(),
    ensures
        events@.len() == books@.balances().len(),
        forall|i: int| 0 <= i < events@.len() ==> is_endowment_of(#[trigger] events@[i], books@, i, tick),
{
    let accounts = books.accounts();
    let goods = books.goods();
    let ghost v = books@;
    let mut events: Vec<Event> = Vec::new();
    let mut i: usize = 0;
    while i < accounts.len()
        invariant
            books.inv(),
            v == books@,
            goods@ == seq![crate::books::only_good()],
            accounts@.len() == v.balances().len(),
            forall|j: int| 0 <= j < accounts@.len() ==> accounts@[j] == v.account_at(j),
            i <= accounts.len(),
            events@.len() == i,
            forall|j: int| 0 <= j < i ==> is_endowment_of(#[trigger] events@[j], v, j, tick),
        decreases accounts.len() - i,
    {
        let account = accounts[i];
        proof {
            crate::books::lemma_account_at(v, i as int);
        }
        let cash_cents = books.cash_of(account).unwrap().cents();
        let mut units: i64 = 0;
        let mut k: usize = 0;
        while k < goods.len()
            invariant
                books.inv(),
                v == books@,
                goods@ == seq![crate::books::only_good()],
                account == v.account_at(i as int),
                v.resolves(account),
                v.stock(account) == v.stocks()[i as int],
                k <= goods.len(),
                units == (if k == 0 {
                    0
                } else {
                    v.stocks()[i as int]
                }),
            decreases goods.len() - k,
        {
            units = units + books.stock_of(account, goods[k]).unwrap();
            k = k + 1;
        }
        events.push(Event::Endowment { tick, account: account.render(), cash_cents, units });
        i = i + 1;
    }
    events
}

/// The seam where records leave a run. Called with each tick row, each event
/// and each provenance row as they are produced; `finish` is called exactly
/// once, before the run's outcome is inspected, and its error must be
/// propagated.
///
/// A sink that keeps what it is handed describes it by three record lists,
/// one per stream, each in the order the records arrived; a sink that keeps
/// nothing says so, and its lists say nothing.
pub trait Sink {
    /// Whether this sink keeps what it is handed, as its record lists. A
    /// sink keeps nothing unless it says otherwise.
    open spec fn keeps(&self) -> bool {
        false
    }

    /// The tick rows handed to the sink, in order.
    open spec fn rows(&self) -> Seq<TickRow> {
        Seq::empty()
    }

    /// The events handed to the sink, in order.
    open spec fn events(&self) -> Seq<Event> {
        Seq::empty()
    }

    /// The provenance rows handed to the sink, in order.
    open spec fn provenance_rows(&self) -> Seq<ProvenanceRow> {
        Seq::empty()
    }

    /// Accept one row of the per-tick series.
    fn tick_row(&mut self, row: TickRow)
        ensures
            final(self).keeps() == old(self).keeps(),
            old(self).keeps() ==> final(self).rows() == old(self).rows().push(row)
                && final(self).events() == old(self).events()
                && final(self).provenance_rows() == old(self).provenance_rows(),
    ;

    /// Accept one event.
    fn event(&mut self, event: Event)
        ensures
            final(self).keeps() == old(self).keeps(),
            old(self).keeps() ==> final(self).events() == old(self).events().push(event)
                && final(self).rows() == old(self).rows()
                && final(self).provenance_rows() == old(self).provenance_rows(),
    ;

    /// Accept one provenance row.
    fn provenance(&mut self, row: ProvenanceRow)
        ensures
            final(self).keeps() == old(self).keeps(),
            old(self).keeps() ==> final(self).provenance_rows() == old(self).provenance_rows().push(row)
                && final(self).rows() == old(self).rows()
                && final(self).events() == old(self).events(),
    ;

    /// Flush everything accepted, reporting the first failure.
    fn finish(&mut self) -> Result<(), std::io::Error>;
}

/// A sink that writes nothing, for runs that only need their outcome.
#[derive(Debug, Clone, Copy, Default)]
pub struct NullSink;

impl Sink for NullSink {
    fn tick_row(&mut self, row: TickRow) {
    }

    fn event(&mut self, event: Event) {
    }

    fn provenance(&mut self, row: ProvenanceRow) {
    }

    fn finish(&mut self) -> (r: Result<(), std::io::Error>)
        ensures
            r is Ok,
    {
        Ok(())
    }
}

/// A sink that keeps every record, in order, in memory.
#[derive(Debug, Clone, Default, PartialEq, Eq)]
pub struct VecSink {
    pub rows: Vec<TickRow>,
    pub events: Vec<Event>,
    pub provenance: Vec<ProvenanceRow>,
}

impl Sink for VecSink {
    open spec fn keeps(&self) -> bool {
        true
    }

    open spec fn rows(&self) -> Seq<TickRow> {
        self.rows@
    }

    open spec fn events(&self) -> Seq<Event> {
        self.events@
    }

    open spec fn provenance_rows(&self) -> Seq<ProvenanceRow> {
        self.provenance@
    }

    fn tick_row(&mut self, row: TickRow)
        ensures
            final(self).rows@ == old(self).rows@.push(row),
            final(self).events@ == old(self).events@,
            final(self).provenance@ == old(self).provenance@,
    {
        self.rows.push(row);
    }

    fn event(&mut self, event: Event)
        ensures
            final(self).events@ == old(self).events@.push(event),
            final(self).rows@ == old(self).rows@,
            final(self).provenance@ == old(self).provenance@,
    {
        self.events.push(event);
    }

    fn provenance(&mut self, row: ProvenanceRow)
        ensures
            final(self).provenance@ == old(self).provenance@.push(row),
            final(self).rows@ == old(self).rows@,
            final(self).events@ == old(self).events@,
    {
        self.provenance.push(row);
    }

    fn finish(&mut self) -> (r: Result<(), std::io::Error>)
        ensures
            r is Ok,
            *final(self) == *old(self),
    {
        Ok(())
    }
}


// ---------------------------------------------------------------------------
// The published schema
// ---------------------------------------------------------------------------

/// A name and its written type, as the schema lists them.
pub type Column = (&'static str, &'static str);

/// `s` in double quotes.
pub open spec fn quoted(s: Seq<char>) -> Seq<char> {
    seq!['"'] + s + seq!['"']
}

/// One schema entry on one line: `{ "name": <name>, "dtype": <kind> }`, a
/// comma unless it is the last, and a newline.
pub open spec fn field_line(indent: Seq<char>, name: Seq<char>, kind: Seq<char>, more: bool) -> Seq<
    char,
> {
    indent + "{ \"name\": "@ + quoted(name) + ", \"dtype\": "@ + quoted(kind) + " }"@ + (if more {
        ","@
    } else {
        Seq::empty()
    }) + "\n"@
}

/// The first `k` entry lines of `cols`.
pub open spec fn field_lines(indent: Seq<char>, cols: Seq<(Seq<char>, Seq<char>)>, k: int) -> Seq<
    char,
>
    decreases k,
{
    if k <= 0 {
        Seq::empty()
    } else {
        field_lines(indent, cols, k - 1) + field_line(
            indent,
            cols[k - 1].0,
            cols[k - 1].1,
            k < cols.len(),
        )
    }
}

/// A tabular file's entry in the schema.
pub open spec fn table_text(file: Seq<char>, cols: Seq<(Seq<char>, Seq<char>)>) -> Seq<char> {
    "  "@ + quoted(file) + ": [\n"@ + field_lines("    "@, cols, cols.len() as int) + "  ],\n"@
}

/// One event variant's entry in the schema.
pub open spec fn event_block(tag: Seq<char>, fields: Seq<(Seq<char>, Seq<char>)>, more: bool) -> Seq<
    char,
> {
    "    {\n      "@ + quoted("event"@) + ": "@ + quoted(tag) + ",\n      "@ + quoted("fields"@)
        + ": [\n"@ + field_lines("        "@, fields, fields.len() as int) + "      ]\n    }"@ + (
    if more {
        ","@
    } else {
        Seq::empty()
    }) + "\n"@
}

/// The first `k` event variant entries.
pub open spec fn event_blocks(shapes: Seq<(Seq<char>, Seq<(Seq<char>, Seq<char>)>)>, k: int) -> Seq<
    char,
>
    decreases k,
{
    if k <= 0 {
        Seq::empty()
    } else {
        event_blocks(shapes, k - 1) + event_block(shapes[k - 1].0, shapes[k - 1].1, k < shapes.len())
    }
}

/// The views of a column list.
pub open spec fn column_views(cols: Seq<Column>) -> Seq<(Seq<char>, Seq<char>)> {
    cols.map_values(|c: Column| (c.0@, c.1@))
}

/// The per-tick series' columns and their written types: every one an
/// integer.
pub open spec fn tick_schema() -> Seq<(Seq<char>, Seq<char>)> {
    seq![
        ("tick"@, "int64"@),
        ("total_money_cents"@, "int64"@),
        ("firm_cash_cents"@, "int64"@),
        ("stock_units"@, "int64"@),
        ("headcount"@, "int64"@),
        ("transactions"@, "int64"@),
        ("rng_draws"@, "int64"@),
        ("activation_digest"@, "int64"@),
        ("postings"@, "int64"@),
    ]
}

/// The provenance table's columns and their written types.
pub open spec fn provenance_schema() -> Seq<(Seq<char>, Seq<char>)> {
    seq![
        ("tick"@, "int64"@),
        ("agent"@, "string"@),
        ("decision"@, "string"@),
        ("input_a"@, "int64"@),
        ("input_b"@, "int64"@),
        ("outcome"@, "int64"@),
        ("rule"@, "string"@),
    ]
}

/// Each event variant's tag and fields, tag first, in declaration order.
pub open spec fn event_schema() -> Seq<(Seq<char>, Seq<(Seq<char>, Seq<char>)>)> {
    seq![
        (
            "hire"@,
            seq![
                ("event"@, "string"@),
                ("tick"@, "int64"@),
                ("firm"@, "string"@),
                ("household"@, "string"@),
                ("wage_cents"@, "int64"@),
            ],
        ),
        (
            "fire"@,
            seq![
                ("event"@, "string"@),
                ("tick"@, "int64"@),
                ("firm"@, "string"@),
                ("household"@, "string"@),
            ],
        ),
        (
            "dividend"@,
            seq![
                ("event"@, "string"@),
                ("tick"@, "int64"@),
                ("firm"@, "string"@),
                ("household"@, "string"@),
                ("amount_cents"@, "int64"@),
            ],
        ),
        (
            "bankruptcy"@,
            seq![
                ("event"@, "string"@),
                ("tick"@, "int64"@),
                ("firm"@, "string"@),
                ("residual_cents"@, "int64"@),
            ],
        ),
        (
            "endowment"@,
            seq![
                ("event"@, "string"@),
                ("tick"@, "int64"@),
                ("account"@, "string"@),
                ("cash_cents"@, "int64"@),
                ("units"@, "int64"@),
            ],
        ),
    ]
}

/// The published schema of the three record files, byte for byte.
pub open spec fn schema_text() -> Seq<char> {
    "{\n  "@ + quoted("schema_version"@) + ": "@ + quoted("v1"@) + ",\n"@ + table_text(
        "ticks.csv"@,
        tick_schema(),
    ) + table_text("provenance.csv"@, provenance_schema()) + "  "@ + quoted("events.jsonl"@)
        + ": [\n"@ + event_blocks(event_schema(), 5) + "  ]\n}\n"@
}

fn push_quoted(out: &mut String, value: &str)
    ensures
        final(out)@ == old(out)@ + quoted(value@),
{
    let ghost start = out@;
    push_char(out, '"');
    push_text(out, value);
    push_char(out, '"');
    assert(out@ =~= start + quoted(value@));
}

fn push_field(out: &mut String, indent: &str, name: &str, kind: &str, more: bool)
    ensures
        final(out)@ == old(out)@ + field_line(indent@, name@, kind@, more),
{
    let ghost start = out@;
    push_text(out, indent);
    push_text(out, "{ \"name\": ");
    push_quoted(out, name);
    push_text(out, ", \"dtype\": ");
    push_quoted(out, kind);
    push_text(out, " }");
    if more {
        push_text(out, ",");
    }
    push_text(out, "\n");
    assert(out@ =~= start + field_line(indent@, name@, kind@, more));
}

fn push_fields(out: &mut String, indent: &str, cols: &Vec<Column>)
    ensures
        final(out)@ == old(out)@ + field_lines(indent@, column_views(cols@), cols@.len() as int),
{
    let ghost start = out@;
    let ghost views = column_views(cols@);
    let mut at: usize = 0;
    while at < cols.len()
        invariant
            at <= cols@.len(),
            views == column_views(cols@),
            views.len() == cols@.len(),
            out@ == start + field_lines(indent@, views, at as int),
        decreases cols.len() - at,
    {
        let (name, kind) = cols[at];
        assert(views[at as int] == (name@, kind@));
        push_field(out, indent, name, kind, at + 1 < cols.len());
        at = at + 1;
        assert(out@ =~= start + field_lines(indent@, views, at as int));
    }
}

fn push_table(out: &mut String, file: &str, cols: &Vec<Column>)
    ensures
        final(out)@ == old(out)@ + table_text(file@, column_views(cols@)),
{
    let ghost start = out@;
    push_text(out, "  ");
    push_quoted(out, file);
    push_text(out, ": [\n");
    push_fields(out, "    ", cols);
    push_text(out, "  ],\n");
    assert(out@ =~= start + table_text(file@, column_views(cols@)));
}

fn push_event_block(out: &mut String, tag: &str, fields: &Vec<Column>, more: bool)
    ensures
        final(out)@ == old(out)@ + event_block(tag@, column_views(fields@), more),
{
    let ghost start = out@;
    push_text(out, "    {\n      ");
    push_quoted(out, "event");
    push_text(out, ": ");
    push_quoted(out, tag);
    push_text(out, ",\n      ");
    push_quoted(out, "fields");
    push_text(out, ": [\n");
    push_fields(out, "        ", fields);
    push_text(out, "      ]\n    }");
    if more {
        push_text(out, ",");
    }
    push_text(out, "\n");
    assert(out@ =~= start + event_block(tag@, column_views(fields@), more));
}

fn columns(names: &Vec<&'static str>, kinds: &Vec<&'static str>) -> (cols: Vec<Column>)
    requires
        names@.len() == kinds@.len(),
    ensures
        cols@.len() == names@.len(),
        forall|i: int| 0 <= i < cols@.len() ==> #[trigger] cols@[i] == (names@[i], kinds@[i]),
{
    let mut cols: Vec<Column> = Vec::new();
    let mut i: usize = 0;
    while i < names.len()
        invariant
            names@.len() == kinds@.len(),
            i <= names@.len(),
            cols@.len() == i,
            forall|k: int| 0 <= k < i ==> #[trigger] cols@[k] == (names@[k], kinds@[k]),
        decreases names.len() - i,
    {
        cols.push((names[i], kinds[i]));
        i = i + 1;
    }
    cols
}

/// The per-tick series' columns and their written types.
pub fn tick_columns() -> (cols: Vec<Column>)
    ensures
        column_views(cols@) == tick_schema(),
{
    let names = vec![
        "tick",
        "total_money_cents",
        "firm_cash_cents",
        "stock_units",
        "headcount",
        "transactions",
        "rng_draws",
        "activation_digest",
        "postings",
    ];
    let kinds = vec!["int64", "int64", "int64", "int64", "int64", "int64", "int64", "int64", "int64"];
    let cols = columns(&names, &kinds);
    assert(column_views(cols@) =~= tick_schema());
    cols
}

/// The provenance table's columns and their written types.
pub fn provenance_columns() -> (cols: Vec<Column>)
    ensures
        column_views(cols@) == provenance_schema(),
{
    let names = vec!["tick", "agent", "decision", "input_a", "input_b", "outcome", "rule"];
    let kinds = vec!["int64", "string", "string", "int64", "int64", "int64", "string"];
    let cols = columns(&names, &kinds);
    assert(column_views(cols@) =~= provenance_schema());
    cols
}

/// Each event variant's tag and fields, tag first, in declaration order.
pub fn event_columns() -> (shapes: Vec<(&'static str, Vec<Column>)>)
    ensures
        shapes@.len() == event_schema().len(),
        forall|i: int|
            0 <= i < shapes@.len() ==> (#[trigger] shapes@[i]).0@ == event_schema()[i].0
                && column_views(shapes@[i].1@) == event_schema()[i].1,
{
    let hire = columns(
        &vec!["event", "tick", "firm", "household", "wage_cents"],
        &vec!["string", "int64", "string", "string", "int64"],
    );
    let fire = columns(
        &vec!["event", "tick", "firm", "household"],
        &vec!["string", "int64", "string", "string"],
    );
    let dividend = columns(
        &vec!["event", "tick", "firm", "household", "amount_cents"],
        &vec!["string", "int64", "string", "string", "int64"],
    );
    let bankruptcy = columns(
        &vec!["event", "tick", "firm", "residual_cents"],
        &vec!["string", "int64", "string", "int64"],
    );
    let endowment = columns(
        &vec!["event", "tick", "account", "cash_cents", "units"],
        &vec!["string", "int64", "string", "int64", "int64"],
    );
    assert(column_views(hire@) =~= event_schema()[0].1);
    assert(column_views(fire@) =~= event_schema()[1].1);
    assert(column_views(dividend@) =~= event_schema()[2].1);
    assert(column_views(bankruptcy@) =~= event_schema()[3].1);
    assert(column_views(endowment@) =~= event_schema()[4].1);
    let mut shapes: Vec<(&'static str, Vec<Column>)> = Vec::new();
    shapes.push(("hire", hire));
    shapes.push(("fire", fire));
    shapes.push(("dividend", dividend));
    shapes.push(("bankruptcy", bankruptcy));
    shapes.push(("endowment", endowment));
    shapes
}

/// The published schema of the three record files: for each tabular file its
/// columns and their written types, and for the event stream each variant's
/// tag and fields. One entry per line, so a reader can grep it.
pub fn schema_json() -> (text: String)
    ensures
        text@ == schema_text(),
{
    let mut out = empty_text();
    push_text(&mut out, "{\n  ");
    push_quoted(&mut out, "schema_version");
    push_text(&mut out, ": ");
    push_quoted(&mut out, SCHEMA_VERSION);
    push_text(&mut out, ",\n");
    push_table(&mut out, TICKS_FILE, &tick_columns());
    push_table(&mut out, PROVENANCE_FILE, &provenance_columns());
    push_text(&mut out, "  ");
    push_quoted(&mut out, EVENTS_FILE);
    push_text(&mut out, ": [\n");
    let ghost before = out@;
    let shapes = event_columns();
    let mut at: usize = 0;
    while at < shapes.len()
        invariant
            at <= shapes@.len(),
            shapes@.len() == event_schema().len(),
            forall|i: int|
                0 <= i < shapes@.len() ==> (#[trigger] shapes@[i]).0@ == event_schema()[i].0
                    && column_views(shapes@[i].1@) == event_schema()[i].1,
            out@ == before + event_blocks(event_schema(), at as int),
        decreases shapes.len() - at,
    {
        let (tag, fields) = (shapes[at].0, &shapes[at].1);
        push_event_block(&mut out, tag, fields, at + 1 < shapes.len());
        at = at + 1;
        assert(out@ =~= before + event_blocks(event_schema(), at as int));
    }
    push_text(&mut out, "  ]\n}\n");
    assert(out@ =~= schema_text());
    out
}


// ---------------------------------------------------------------------------
// Comparing two texts line by line
// ---------------------------------------------------------------------------

/// The index just past the end of the line starting at or containing `i`:
/// past its newline, or the end of the text.
pub open spec fn line_end(s: Seq<char>, i: int) -> int
    decreases s.len() - i,
{
    if i < 0 || i >= s.len() {
        s.len() as int
    } else if s[i] == '\n' {
        i + 1
    } else {
        line_end(s, i + 1)
    }
}

pub proof fn lemma_line_end(s: Seq<char>, i: int)
    requires
        0 <= i < s.len(),
    ensures
        i < line_end(s, i) <= s.len(),
    decreases s.len() - i,
{
    if s[i] != '\n' {
        if i + 1 < s.len() {
            lemma_line_end(s, i + 1);
        } else {
            assert(line_end(s, i + 1) == s.len());
        }
    }
}

/// The lines of `s` from index `start`, each keeping its newline, the last
/// one without a newline if the text does not end in one.
pub open spec fn lines_from(s: Seq<char>, start: int) -> Seq<Seq<char>>
    decreases s.len() - start,
{
    if start < 0 || start >= s.len() {
        Seq::empty()
    } else {
        let e = line_end(s, start);
        proof {
            lemma_line_end(s, start);
        }
        seq![s.subrange(start, e)] + lines_from(s, e)
    }
}

/// The `k`-th line, if there is one.
pub open spec fn line_at(ls: Seq<Seq<char>>, k: int) -> Option<Seq<char>> {
    if 0 <= k < ls.len() {
        Some(ls[k])
    } else {
        None
    }
}

/// A line as a report shows it: itself, or the marker for a missing line.
pub open spec fn shown(line: Option<Seq<char>>) -> Seq<char> {
    match line {
        Some(l) => l,
        None => "<no such line>"@,
    }
}

/// The first position from `k` on where the two line lists differ, as a
/// one-based line number and the two lines.
pub open spec fn first_diff_from(a: Seq<Seq<char>>, b: Seq<Seq<char>>, k: int) -> Option<
    (int, Seq<char>, Seq<char>),
>
    decreases a.len() + b.len() - k,
{
    if k < 0 || (k >= a.len() && k >= b.len()) {
        None
    } else if line_at(a, k) == line_at(b, k) {
        first_diff_from(a, b, k + 1)
    } else {
        Some((k + 1, shown(line_at(a, k)), shown(line_at(b, k))))
    }
}

/// The first line on which two texts differ, a missing line and a missing
/// final newline both counting as differences, or `None` if they are equal
/// line for line.
pub open spec fn text_difference(left: Seq<char>, right: Seq<char>) -> Option<
    (int, Seq<char>, Seq<char>),
> {
    first_diff_from(lines_from(left, 0), lines_from(right, 0), 0)
}

/// The characters of `s`.
fn chars_of(s: &str) -> (v: Vec<char>)
    ensures
        v@ == s@,
{
    let mut v: Vec<char> = Vec::new();
    for c in it: s.chars()
        invariant
            it.seq() == s@,
            v@ == it.seq().take(it.index() as int),
    {
        v.push(c);
        assert(v@ =~= it.seq().take(it.index() + 1));
    }
    assert(v@ =~= s@);
    v
}

/// The lines of `t`, each keeping its newline.
fn split_lines(t: &Vec<char>) -> (ls: Vec<Vec<char>>)
    ensures
        ls@.len() == lines_from(t@, 0).len(),
        forall|k: int| 0 <= k < ls@.len() ==> #[trigger] ls@[k]@ == lines_from(t@, 0)[k],
{
    let mut ls: Vec<Vec<char>> = Vec::new();
    let ghost views: Seq<Seq<char>> = Seq::empty();
    let mut start: usize = 0;
    while start < t.len()
        invariant
            start <= t@.len(),
            views.len() == ls@.len(),
            forall|k: int| 0 <= k < ls@.len() ==> #[trigger] ls@[k]@ == views[k],
            views + lines_from(t@, start as int) == lines_from(t@, 0),
        decreases t.len() - start,
    {
        let mut line: Vec<char> = Vec::new();
        let mut j: usize = start;
        let mut done = false;
        while j < t.len() && !done
            invariant
                start <= j <= t@.len(),
                line@ == t@.subrange(start as int, j as int),
                done ==> j > start && t@[j - 1] == '\n' && line_end(t@, start as int) == j,
                !done ==> line_end(t@, start as int) == line_end(t@, j as int),
            decreases t.len() - j,
        {
            let c = t[j];
            line.push(c);
            j = j + 1;
            assert(line@ =~= t@.subrange(start as int, j as int));
            if c == '\n' {
                done = true;
            }
        }
        proof {
            lemma_line_end(t@, start as int);
            assert(line_end(t@, start as int) == j);
            assert(lines_from(t@, start as int) =~= seq![t@.subrange(start as int, j as int)]
                + lines_from(t@, j as int));
            views = views.push(line@);
            assert(views + lines_from(t@, j as int) =~= lines_from(t@, 0));
        }
        ls.push(line);
        start = j;
    }
    assert(views =~= lines_from(t@, 0));
    ls
}

/// Whether two character vectors hold the same characters.
fn same_chars(a: &Vec<char>, b: &Vec<char>) -> (same: bool)
    ensures
        same == (a@ == b@),
{
    if a.len() != b.len() {
        return false;
    }
    let mut i: usize = 0;
    while i < a.len()
        invariant
            a@.len() == b@.len(),
            i <= a@.len(),
            forall|k: int| 0 <= k < i ==> a@[k] == b@[k],
        decreases a.len() - i,
    {
        if a[i] != b[i] {
            return false;
        }
        i = i + 1;
    }
    assert(a@ =~= b@);
    true
}

/// An owned string holding `v`.
fn string_of(v: &Vec<char>) -> (s: String)
    ensures
        s@ == v@,
{
    let mut s = empty_text();
    let mut i: usize = 0;
    while i < v.len()
        invariant
            i <= v@.len(),
            s@ == v@.take(i as int),
        decreases v.len() - i,
    {
        push_char(&mut s, v[i]);
        i = i + 1;
        assert(s@ =~= v@.take(i as int));
    }
    assert(v@.take(v@.len() as int) =~= v@);
    s
}

/// A line as a report shows it.
fn shown_line(ls: &Vec<Vec<char>>, k: usize) -> (s: String)
    ensures
        s@ == (if k < ls@.len() {
            ls@[k as int]@
        } else {
            "<no such line>"@
        }),
{
    if k < ls.len() {
        string_of(&ls[k])
    } else {
        let mut s = empty_text();
        push_text(&mut s, NO_SUCH_LINE);
        s
    }
}

/// The first line on which two texts differ, as a one-based line number and
/// the two lines with their terminators, `<no such line>` standing for a line
/// one side does not have; `None` if they are equal line for line.
pub fn first_difference(left: &str, right: &str) -> (r: Option<(usize, String, String)>)
    ensures
        match text_difference(left@, right@) {
            None => r is None,
            Some((n, x, y)) => r matches Some((m, xs, ys)) && m == n && xs@ == x && ys@ == y,
        },
{
    let lefts = split_lines(&chars_of(left));
    let rights = split_lines(&chars_of(right));
    let ghost a = lines_from(left@, 0);
    let ghost b = lines_from(right@, 0);
    let mut k: usize = 0;
    while k < lefts.len() || k < rights.len()
        invariant
            lefts@.len() == a.len(),
            rights@.len() == b.len(),
            forall|i: int| 0 <= i < lefts@.len() ==> #[trigger] lefts@[i]@ == a[i],
            forall|i: int| 0 <= i < rights@.len() ==> #[trigger] rights@[i]@ == b[i],
            a == lines_from(left@, 0),
            b == lines_from(right@, 0),
            first_diff_from(a, b, 0) == first_diff_from(a, b, k as int),
            k <= a.len() || k <= b.len(),
        decreases lefts.len() + rights.len() - k,
    {
        let equal = if k < lefts.len() && k < rights.len() {
            same_chars(&lefts[k], &rights[k])
        } else {
            false
        };
        if !equal {
            assert(line_at(a, k as int) != line_at(b, k as int));
            let x = shown_line(&lefts, k);
            let y = shown_line(&rights, k);
            return Some((k + 1, x, y));
        }
        k = k + 1;
    }
    None
}


// ---------------------------------------------------------------------------
// Reading top-level keys out of a serialised record
// ---------------------------------------------------------------------------

/// A quoted name's body read from index `i` on, appended to `name`: an
/// escape keeps its backslash and the character after it, and the name ends
/// at the first unescaped quote. Returns the name and the index just past
/// the closing quote, or the end of the text.
pub open spec fn scan_name(s: Seq<char>, i: int, name: Seq<char>) -> (Seq<char>, int)
    decreases s.len() - i,
{
    if i < 0 || i >= s.len() {
        (name, s.len() as int)
    } else if s[i] == '\\' {
        if i + 1 < s.len() {
            scan_name(s, i + 2, name.push(s[i]).push(s[i + 1]))
        } else {
            (name.push(s[i]), s.len() as int)
        }
    } else if s[i] == '"' {
        (name, i + 1)
    } else {
        scan_name(s, i + 1, name.push(s[i]))
    }
}

pub proof fn lemma_scan_name(s: Seq<char>, i: int, name: Seq<char>)
    requires
        0 <= i <= s.len(),
    ensures
        i <= scan_name(s, i, name).1 <= s.len(),
    decreases s.len() - i,
{
    if i < s.len() {
        if s[i] == '\\' {
            if i + 1 < s.len() {
                lemma_scan_name(s, i + 2, name.push(s[i]).push(s[i + 1]));
            }
        } else if s[i] != '"' {
            lemma_scan_name(s, i + 1, name.push(s[i]));
        }
    }
}

/// The top-level keys of a serialised object, in the order the text holds
/// them, read from index `i` on with `keys` found so far, the current nesting
/// `depth`, and whether the next quoted string is a key.
pub open spec fn scan_keys(s: Seq<char>, i: int, keys: Seq<Seq<char>>, depth: nat, expect_key: bool) -> Seq<
    Seq<char>,
>
    decreases s.len() - i,
{
    if i < 0 || i >= s.len() {
        keys
    } else {
        let c = s[i];
        if c == '"' {
            let (name, j) = scan_name(s, i + 1, Seq::empty());
            proof {
                lemma_scan_name(s, i + 1, Seq::empty());
            }
            scan_keys(
                s,
                j,
                if expect_key && depth == 1 {
                    keys.push(name)
                } else {
                    keys
                },
                depth,
                false,
            )
        } else if c == '{' {
            scan_keys(s, i + 1, keys, depth + 1, depth + 1 == 1)
        } else if c == '[' {
            scan_keys(s, i + 1, keys, depth + 1, false)
        } else if c == '}' || c == ']' {
            scan_keys(s, i + 1, keys, if depth > 0 {
                (depth - 1) as nat
            } else {
                0
            }, false)
        } else if c == ',' {
            scan_keys(s, i + 1, keys, depth, depth == 1)
        } else if c == ':' {
            scan_keys(s, i + 1, keys, depth, false)
        } else {
            scan_keys(s, i + 1, keys, depth, expect_key)
        }
    }
}

/// The keys of a serialised object's top level, in the order the text
/// holds them: a quoted string is a key when it opens the object or follows
/// one of its commas, and strings inside nested objects or arrays are not.
pub fn keys_in_text_order(text: &str) -> (keys: Vec<String>)
    ensures
        keys@.len() == scan_keys(text@, 0, Seq::empty(), 0, false).len(),
        forall|k: int|
            0 <= k < keys@.len() ==> #[trigger] keys@[k]@ == scan_keys(
                text@,
                0,
                Seq::empty(),
                0,
                false,
            )[k],
{
    let s = chars_of(text);
    let ghost whole = scan_keys(s@, 0, Seq::empty(), 0, false);
    let ghost mut found: Seq<Seq<char>> = Seq::empty();
    let mut keys: Vec<String> = Vec::new();
    let mut depth: usize = 0;
    let mut expect_key = false;
    let mut i: usize = 0;
    while i < s.len()
        invariant
            s@ == text@,
            whole == scan_keys(s@, 0, Seq::empty(), 0, false),
            i <= s@.len(),
            depth <= i,
            found.len() == keys@.len(),
            forall|k: int| 0 <= k < keys@.len() ==> #[trigger] keys@[k]@ == found[k],
            whole == scan_keys(s@, i as int, found, depth as nat, expect_key),
        decreases s.len() - i,
    {
        let c = s[i];
        if c == '"' {
            let mut name: Vec<char> = Vec::new();
            let mut j: usize = i + 1;
            let mut closed = false;
            proof {
                lemma_scan_name(s@, i + 1, Seq::empty());
            }
            while j < s.len() && !closed
                invariant
                    i < j <= s@.len(),
                    closed ==> scan_name(s@, i + 1, Seq::empty()) == (name@, j as int),
                    !closed ==> scan_name(s@, i + 1, Seq::empty()) == scan_name(
                        s@,
                        j as int,
                        name@,
                    ),
                decreases s.len() - j,
            {
                let inner = s[j];
                if inner == '\\' {
                    name.push(inner);
                    if j + 1 < s.len() {
                        name.push(s[j + 1]);
                        j = j + 2;
                    } else {
                        j = j + 1;
                    }
                } else if inner == '"' {
                    j = j + 1;
                    closed = true;
                } else {
                    name.push(inner);
                    j = j + 1;
                }
            }
            proof {
                if !closed {
                    assert(scan_name(s@, j as int, name@) == (name@, s@.len() as int));
                }
            }
            if expect_key && depth == 1 {
                keys.push(string_of(&name));
                proof {
                    found = found.push(name@);
                }
            }
            expect_key = false;
            i = j;
        } else if c == '{' {
            depth = depth + 1;
            expect_key = depth == 1;
            i = i + 1;
        } else if c == '[' {
            depth = depth + 1;
            expect_key = false;
            i = i + 1;
        } else if c == '}' || c == ']' {
            depth = if depth > 0 {
                depth - 1
            } else {
                0
            };
            expect_key = false;
            i = i + 1;
        } else if c == ',' {
            expect_key = depth == 1;
            i = i + 1;
        } else if c == ':' {
            expect_key = false;
            i = i + 1;
        } else {
            i = i + 1;
        }
    }
    keys
}


/// The shape of one serialised value, as the schema classifies it.
#[derive(Debug, Clone, Copy, PartialEq, Eq, Structural)]
pub enum ValueShape {
    /// A string.
    Text,
    /// `true` or `false`.
    Boolean,
    /// A number with an exact 64-bit integer reading.
    Integer,
    /// Any other number.
    Fraction,
    /// `null`.
    Absent,
    /// An array or an object.
    Compound,
}

/// The written type of a value's shape; a compound value is reported as
/// unsupported rather than guessed at.
pub open spec fn kind_of(shape: ValueShape) -> Seq<char> {
    match shape {
        ValueShape::Text => "string"@,
        ValueShape::Boolean => "bool"@,
        ValueShape::Integer => "int64"@,
        ValueShape::Fraction => "float64"@,
        ValueShape::Absent => "null"@,
        ValueShape::Compound => "UNSUPPORTED"@,
    }
}

/// The written type the schema gives a value of this shape.
pub fn value_kind(shape: ValueShape) -> (kind: &'static str)
    ensures
        kind@ == kind_of(shape),
{
    match shape {
        ValueShape::Text => "string",
        ValueShape::Boolean => "bool",
        ValueShape::Integer => "int64",
        ValueShape::Fraction => "float64",
        ValueShape::Absent => "null",
        ValueShape::Compound => "UNSUPPORTED",
    }
}

/// The shape an integer field is written with: a JSON integer.
pub open spec fn integer_shape(x: int) -> ValueShape {
    ValueShape::Integer
}

/// The shape a text field is written with: a JSON string.
pub open spec fn text_shape(s: String) -> ValueShape {
    ValueShape::Text
}

/// The shape a decision is written with: its spelling, a JSON string.
pub open spec fn decision_shape(d: Decision) -> ValueShape {
    ValueShape::Text
}

/// The shape a rule is written with: its spelling, a JSON string.
pub open spec fn rule_shape(r: Rule) -> ValueShape {
    ValueShape::Text
}

/// The fields of a row of the per-tick series, in declaration order, each
/// with the shape of the value it holds.
pub open spec fn row_fields(r: TickRow) -> Seq<(Seq<char>, ValueShape)> {
    seq![
        ("tick"@, integer_shape(r.tick as int)),
        ("total_money_cents"@, integer_shape(r.total_money_cents as int)),
        ("firm_cash_cents"@, integer_shape(r.firm_cash_cents as int)),
        ("stock_units"@, integer_shape(r.stock_units as int)),
        ("headcount"@, integer_shape(r.headcount as int)),
        ("transactions"@, integer_shape(r.transactions as int)),
        ("rng_draws"@, integer_shape(r.rng_draws as int)),
        ("activation_digest"@, integer_shape(r.activation_digest as int)),
        ("postings"@, integer_shape(r.postings as int)),
    ]
}

/// The fields of a provenance row, in declaration order, each with the shape
/// of the value it holds.
pub open spec fn provenance_fields(r: ProvenanceRow) -> Seq<(Seq<char>, ValueShape)> {
    seq![
        ("tick"@, integer_shape(r.tick as int)),
        ("agent"@, text_shape(r.agent)),
        ("decision"@, decision_shape(r.decision)),
        ("input_a"@, integer_shape(r.input_a as int)),
        ("input_b"@, integer_shape(r.input_b as int)),
        ("outcome"@, integer_shape(r.outcome as int)),
        ("rule"@, rule_shape(r.rule)),
    ]
}

/// An event record's tag and its fields as written: the tag field first,
/// then the variant's own fields in declaration order, each with the shape
/// of the value it holds.
pub open spec fn event_fields(e: Event) -> (Seq<char>, Seq<(Seq<char>, ValueShape)>) {
    match e {
        Event::Hire { tick, firm, household, wage_cents } => (
            "hire"@,
            seq![
                ("event"@, ValueShape::Text),
                ("tick"@, integer_shape(tick as int)),
                ("firm"@, text_shape(firm)),
                ("household"@, text_shape(household)),
                ("wage_cents"@, integer_shape(wage_cents as int)),
            ],
        ),
        Event::Fire { tick, firm, household } => (
            "fire"@,
            seq![
                ("event"@, ValueShape::Text),
                ("tick"@, integer_shape(tick as int)),
                ("firm"@, text_shape(firm)),
                ("household"@, text_shape(household)),
            ],
        ),
        Event::Dividend { tick, firm, household, amount_cents } => (
            "dividend"@,
            seq![
                ("event"@, ValueShape::Text),
                ("tick"@, integer_shape(tick as int)),
                ("firm"@, text_shape(firm)),
                ("household"@, text_shape(household)),
                ("amount_cents"@, integer_shape(amount_cents as int)),
            ],
        ),
        Event::Bankruptcy { tick, firm, residual_cents } => (
            "bankruptcy"@,
            seq![
                ("event"@, ValueShape::Text),
                ("tick"@, integer_shape(tick as int)),
                ("firm"@, text_shape(firm)),
                ("residual_cents"@, integer_shape(residual_cents as int)),
            ],
        ),
        Event::Endowment { tick, account, cash_cents, units } => (
            "endowment"@,
            seq![
                ("event"@, ValueShape::Text),
                ("tick"@, integer_shape(tick as int)),
                ("account"@, text_shape(account)),
                ("cash_cents"@, integer_shape(cash_cents as int)),
                ("units"@, integer_shape(units as int)),
            ],
        ),
    }
}

/// Fields listed as the schema lists them: each name with the written type
/// of its shape.
pub open spec fn listed(fields: Seq<(Seq<char>, ValueShape)>) -> Seq<(Seq<char>, Seq<char>)> {
    fields.map_values(|f: (Seq<char>, ValueShape)| (f.0, kind_of(f.1)))
}

/// The published schema describes the records as they are: the tick table
/// lists every field of a tick row, and the provenance table every field of
/// a provenance row, in order, each with the written type of its value; and
/// every event record, of every variant, has an entry under its tag listing
/// its fields in order with the written type of each.
pub proof fn law_the_schema_lists_every_record_field_with_its_type(r: TickRow, q: ProvenanceRow, e: Event)
    ensures
        tick_schema() == listed(row_fields(r)),
        provenance_schema() == listed(provenance_fields(q)),
        exists|k: int|
            0 <= k < event_schema().len() && (#[trigger] event_schema()[k]).0 == event_fields(e).0
                && event_schema()[k].1 == listed(event_fields(e).1),
{
    assert(tick_schema() =~= listed(row_fields(r)));
    assert(provenance_schema() =~= listed(provenance_fields(q)));
    let k: int = match e {
        Event::Hire { .. } => 0,
        Event::Fire { .. } => 1,
        Event::Dividend { .. } => 2,
        Event::Bankruptcy { .. } => 3,
        Event::Endowment { .. } => 4,
    };
    assert(event_schema()[k].1 =~= listed(event_fields(e).1));
}

} // verus!
