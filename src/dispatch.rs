use vstd::prelude::*;
use vstd::string::StrSliceExecFns;
use crate::naming::{hyphenate, push_char, underscore_to_hyphen};

verus! {

/// The decimal digit for `d`, for `d < 10`.
pub open spec fn digit_char(d: nat) -> char {
    if d == 0 { '0' }
    else if d == 1 { '1' }
    else if d == 2 { '2' }
    else if d == 3 { '3' }
    else if d == 4 { '4' }
    else if d == 5 { '5' }
    else if d == 6 { '6' }
    else if d == 7 { '7' }
    else if d == 8 { '8' }
    else { '9' }
}

/// The decimal representation of `n`, without leading zeros.
pub open spec fn decimal(n: nat) -> Seq<char>
    decreases n,
{
    if n < 10 {
        seq![digit_char(n)]
    } else {
        decimal(n / 10).push(digit_char(n % 10))
    }
}

/// The id of the event that worker `worker` sends to the handler `name`:
/// `call-<name>-<worker>`.
pub open spec fn call_id(name: Seq<char>, worker: nat) -> Seq<char> {
    seq!['c', 'a', 'l', 'l', '-'] + name + seq!['-'] + decimal(worker)
}

/// The payload carried by every synthesized event.
pub open spec fn event_data() -> Seq<char> {
    seq!['d', 'a', 't', 'a']
}

/// An event handed to a guest handler: two strings.
#[derive(Debug, Clone)]
pub struct Event {
    pub id: String,
    pub data: String,
}

impl View for Event {
    type V = (Seq<char>, Seq<char>);

    open spec fn view(&self) -> (Seq<char>, Seq<char>) {
        (self.id@, self.data@)
    }
}

/// One dispatch job: the guest export to call and the event to pass it.
#[derive(Debug, Clone)]
pub struct Job {
    pub export: String,
    pub event: Event,
}

impl View for Job {
    type V = (Seq<char>, Seq<char>, Seq<char>);

    /// (export name, event id, event data)
    open spec fn view(&self) -> (Seq<char>, Seq<char>, Seq<char>) {
        (self.export@, self.event.id@, self.event.data@)
    }
}

/// The job that worker `worker` runs for the registered handler `name`.
pub open spec fn planned_job(name: Seq<char>, worker: nat) -> (Seq<char>, Seq<char>, Seq<char>) {
    (hyphenate(name), call_id(name, worker), event_data())
}

/// The full plan: for workers numbered `1..=workers`, each runs one job per
/// registration entry, in table order.
pub open spec fn dispatch_plan_of(table: Seq<Seq<char>>, workers: nat) -> Seq<
    Seq<(Seq<char>, Seq<char>, Seq<char>)>,
> {
    Seq::new(workers, |w: int| Seq::new(table.len(), |k: int| planned_job(table[k], (w + 1) as nat)))
}

/// The guest export name for a registered handler name.
pub fn func_name_to_abi_name(name: &str) -> (r: String)
    ensures
        r@ == hyphenate(name@),
{
    underscore_to_hyphen(name)
}

/// Appends the decimal representation of `n` to `s`.
pub fn push_decimal(s: &mut String, n: u64)
    ensures
        final(s)@ == old(s)@ + decimal(n as nat),
    decreases n,
{
    if n >= 10 {
        push_decimal(s, n / 10);
    }
    let d = n % 10;
    let c = if d == 0 { '0' }
        else if d == 1 { '1' }
        else if d == 2 { '2' }
        else if d == 3 { '3' }
        else if d == 4 { '4' }
        else if d == 5 { '5' }
        else if d == 6 { '6' }
        else if d == 7 { '7' }
        else if d == 8 { '8' }
        else { '9' };
    push_char(s, c);
    proof {
        assert(c == digit_char(d as nat));
        if n >= 10 {
            assert(decimal(n as nat) == decimal((n / 10) as nat).push(c));
        } else {
            assert(decimal(n as nat) =~= seq![c]);
        }
        assert(final(s)@ =~= old(s)@ + decimal(n as nat));
    }
}

/// Builds the id `call-<name>-<worker>`.
pub fn make_call_id(name: &str, worker: u64) -> (r: String)
    ensures
        r@ == call_id(name@, worker as nat),
{
    let mut r = String::new();
    push_char(&mut r, 'c');
    push_char(&mut r, 'a');
    push_char(&mut r, 'l');
    push_char(&mut r, 'l');
    push_char(&mut r, '-');
    r.append(name);
    push_char(&mut r, '-');
    push_decimal(&mut r, worker);
    assert(r@ =~= call_id(name@, worker as nat));
    r
}

/// Synthesizes the job that worker `worker` runs for `name`.
pub fn make_job(name: &str, worker: u64) -> (r: Job)
    ensures
        r@ == planned_job(name@, worker as nat),
{
    let mut data = String::new();
    push_char(&mut data, 'd');
    push_char(&mut data, 'a');
    push_char(&mut data, 't');
    push_char(&mut data, 'a');
    assert(data@ =~= event_data());
    Job {
        export: func_name_to_abi_name(name),
        event: Event { id: make_call_id(name, worker), data },
    }
}

/// The jobs of one worker: one per registration entry, in table order.
pub fn worker_jobs(table: &Vec<String>, worker: u64) -> (r: Vec<Job>)
    ensures
        r.len() == table.len(),
        forall|k: int| 0 <= k < table.len() ==> #[trigger] r[k]@ == planned_job(table[k]@, worker as nat),
{
    let mut r: Vec<Job> = Vec::new();
    let mut k: usize = 0;
    while k < table.len()
        invariant
            k <= table.len(),
            r.len() == k,
            forall|j: int| 0 <= j < k ==> #[trigger] r[j]@ == planned_job(table[j]@, worker as nat),
        decreases table.len() - k,
    {
        r.push(make_job(table[k].as_str(), worker));
        k = k + 1;
    }
    r
}

/// The whole dispatch plan: `workers` workers, numbered from 1, each of
/// which runs every registration entry once.
pub fn dispatch_plan(table: &Vec<String>, workers: u64) -> (r: Vec<Vec<Job>>)
    ensures
        r.len() == workers,
        forall|w: int| 0 <= w < workers ==> #[trigger] r[w].len() == table.len(),
        forall|w: int, k: int|
            0 <= w < workers && 0 <= k < table.len() ==> #[trigger] r[w][k]@
                == dispatch_plan_of(table@.map_values(|s: String| s@), workers as nat)[w][k],
{
    let ghost names = table@.map_values(|s: String| s@);
    let mut r: Vec<Vec<Job>> = Vec::new();
    let mut w: u64 = 0;
    while w < workers
        invariant
            w <= workers,
            r.len() == w,
            names == table@.map_values(|s: String| s@),
            forall|v: int| 0 <= v < w ==> #[trigger] r[v].len() == table.len(),
            forall|v: int, k: int|
                0 <= v < w && 0 <= k < table.len() ==> #[trigger] r[v][k]@
                    == dispatch_plan_of(names, workers as nat)[v][k],
        decreases workers - w,
    {
        let jobs = worker_jobs(table, w + 1);
        r.push(jobs);
        w = w + 1;
    }
    r
}

/// The registration table of the driver instance: the handler names that
/// the guest declared during its startup, in declaration order.
pub struct Exec {
    vtable: Vec<String>,
}

impl View for Exec {
    type V = Seq<Seq<char>>;

    closed spec fn view(&self) -> Seq<Seq<char>> {
        self.vtable@.map_values(|s: String| s@)
    }
}

impl Default for Exec {
    fn default() -> (r: Exec)
        ensures
            r@ == Seq::<Seq<char>>::empty(),
    {
        let r = Exec { vtable: Vec::new() };
        assert(r@ =~= Seq::<Seq<char>>::empty());
        r
    }
}

impl Exec {
    /// Opens the registration phase; the table is left as it is.
    pub fn events_new(&mut self)
        ensures
            final(self)@ == old(self)@,
    {
    }

    /// Registers `id`: it is appended, also when it is already present.
    pub fn events_listen(&mut self, id: &str)
        ensures
            final(self)@ == old(self)@.push(id@),
    {
        self.vtable.push(id.to_string());
        assert(self@ =~= old(self)@.push(id@));
    }

    /// The registered names, in registration order.
    pub fn handlers(&self) -> (r: &Vec<String>)
        ensures
            r@.map_values(|s: String| s@) == self@,
    {
        &self.vtable
    }

    /// Ends the registration phase and plans the dispatch of every
    /// registered name on `workers` workers. `duration` has no effect.
    pub fn events_exec(&self, duration: u64, workers: u64) -> (r: Vec<Vec<Job>>)
        ensures
            r.len() == workers,
            forall|w: int| 0 <= w < workers ==> #[trigger] r[w].len() == self@.len(),
            forall|w: int, k: int|
                0 <= w < workers && 0 <= k < self@.len() ==> #[trigger] r[w][k]@
                    == dispatch_plan_of(self@, workers as nat)[w][k],
    {
        dispatch_plan(&self.vtable, workers)
    }
}

proof fn lemma_decimal_nonempty(n: nat)
    ensures
        decimal(n).len() >= 1,
    decreases n,
{
    if n >= 10 {
        lemma_decimal_nonempty(n / 10);
    }
}

/// Distinct numbers have distinct decimal representations.
pub proof fn lemma_decimal_injective(a: nat, b: nat)
    requires
        decimal(a) == decimal(b),
    ensures
        a == b,
    decreases a,
{
    if a < 10 && b < 10 {
        assert(decimal(a)[0] == digit_char(a));
        assert(decimal(b)[0] == digit_char(b));
    } else if a < 10 {
        lemma_decimal_nonempty(b / 10);
        assert(decimal(b).len() >= 2);
    } else if b < 10 {
        lemma_decimal_nonempty(a / 10);
        assert(decimal(a).len() >= 2);
    } else {
        let da = decimal(a);
        assert(da.last() == digit_char(a % 10));
        assert(decimal(b).last() == digit_char(b % 10));
        assert(a % 10 == b % 10);
        assert(da.drop_last() =~= decimal(a / 10));
        assert(decimal(b).drop_last() =~= decimal(b / 10));
        lemma_decimal_injective(a / 10, b / 10);
        assert(a == 10 * (a / 10) + a % 10);
        assert(b == 10 * (b / 10) + b % 10);
    }
}

/// Two workers with distinct numbers send distinct ids for one name.
pub proof fn lemma_call_id_injective(name: Seq<char>, a: nat, b: nat)
    requires
        call_id(name, a) == call_id(name, b),
    ensures
        a == b,
{
    let p = seq!['c', 'a', 'l', 'l', '-'] + name + seq!['-'];
    let ia = call_id(name, a);
    let ib = call_id(name, b);
    assert(ia =~= p + decimal(a));
    assert(ib =~= p + decimal(b));
    assert(ia.subrange(p.len() as int, ia.len() as int) =~= decimal(a));
    assert(ib.subrange(p.len() as int, ib.len() as int) =~= decimal(b));
    lemma_decimal_injective(a, b);
}

/// Each registration entry reaches the guest exactly once per worker: its
/// column of the plan holds one job per worker, all to the entry's export,
/// with ids `call-<name>-1` up to `call-<name>-<workers>`, pairwise distinct.
pub proof fn lemma_each_entry_once_per_worker(table: Seq<Seq<char>>, workers: nat, k: int)
    requires
        0 <= k < table.len(),
    ensures
        dispatch_plan_of(table, workers).len() == workers,
        forall|w: int|
            0 <= w < workers ==> (#[trigger] dispatch_plan_of(table, workers)[w]).len() == table.len()
                && dispatch_plan_of(table, workers)[w][k] == (
                hyphenate(table[k]),
                call_id(table[k], (w + 1) as nat),
                event_data(),
            ),
        forall|w1: int, w2: int|
            0 <= w1 < workers && 0 <= w2 < workers && w1 != w2 ==> (#[trigger] dispatch_plan_of(
                table,
                workers,
            )[w1][k]).1 != (#[trigger] dispatch_plan_of(table, workers)[w2][k]).1,
{
    assert forall|w1: int, w2: int|
        0 <= w1 < workers && 0 <= w2 < workers && w1 != w2 implies (#[trigger] dispatch_plan_of(
        table,
        workers,
    )[w1][k]).1 != (#[trigger] dispatch_plan_of(table, workers)[w2][k]).1 by {
        if call_id(table[k], (w1 + 1) as nat) == call_id(table[k], (w2 + 1) as nat) {
            lemma_call_id_injective(table[k], (w1 + 1) as nat, (w2 + 1) as nat);
        }
    }
}

/// A name registered at two places of the table is dispatched twice over:
/// both entries get the full sequence of jobs, one per worker.
pub proof fn lemma_duplicate_entries_dispatched_separately(
    table: Seq<Seq<char>>,
    workers: nat,
    k1: int,
    k2: int,
)
    requires
        0 <= k1 < table.len(),
        0 <= k2 < table.len(),
        k1 != k2,
        table[k1] == table[k2],
    ensures
        forall|w: int|
            0 <= w < workers ==> #[trigger] dispatch_plan_of(table, workers)[w][k1] == planned_job(
                table[k1],
                (w + 1) as nat,
            ) && dispatch_plan_of(table, workers)[w][k2] == planned_job(table[k1], (w + 1) as nat),
{
}

} // verus!
