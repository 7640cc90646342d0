//! The course of a training run. The run alternates with outside work
//! (building the dataset, training an epoch, running the model): after each
//! piece of work its driver reports what came of it, and the run says what
//! to do next and what an observer may see.
use vstd::prelude::*;
use vstd::string::StringExecFns;

verus! {

/// What an observer sees of a training run.
#[derive(Debug, Clone)]
pub enum TrainingStatus<T> {
    Idle,
    Training { epoch: usize, total_epochs: usize, loss: T },
    Complete { final_loss: T },
    Error(String),
}

/// A training status with its error message as plain text.
pub enum StatusView<T> {
    Idle,
    Training { epoch: usize, total_epochs: usize, loss: T },
    Complete { final_loss: T },
    Error(Seq<char>),
}

impl<T> View for TrainingStatus<T> {
    type V = StatusView<T>;

    open spec fn view(&self) -> StatusView<T> {
        match *self {
            TrainingStatus::Idle => StatusView::Idle,
            TrainingStatus::Training { epoch, total_epochs, loss } => StatusView::Training {
                epoch,
                total_epochs,
                loss,
            },
            TrainingStatus::Complete { final_loss } => StatusView::Complete { final_loss },
            TrainingStatus::Error(message) => StatusView::Error(message@),
        }
    }
}

/// The progress of one training run as its observer reads it: the status,
/// the average loss of each finished epoch, and the latest forecast per
/// symbol.
#[derive(Debug, Clone)]
pub struct TrainingProgress<T> {
    pub status: TrainingStatus<T>,
    pub losses: Vec<T>,
    pub predictions: Vec<(String, T)>,
}

impl<T> TrainingProgress<T> {
    /// Progress before any run: idle, no losses, no predictions.
    pub fn new() -> (out: Self)
        ensures
            out.status@ == StatusView::<T>::Idle,
            out.losses@.len() == 0,
            out.predictions@.len() == 0,
    {
        TrainingProgress { status: TrainingStatus::Idle, losses: Vec::new(), predictions: Vec::new() }
    }
}

/// Where a run stands between two pieces of outside work.
#[derive(Clone, Copy, Debug, PartialEq, Eq, Structural)]
pub enum Stage {
    /// The dataset is being built.
    Building,
    /// An epoch is being trained.
    Training,
    /// The forecast is being computed.
    Predicting,
    /// The run has ended, in `Complete` or in `Error`.
    Finished,
}

/// What the driver of a run reports back.
pub enum TrainingEvent<T> {
    /// The dataset was built and holds `samples` samples.
    DatasetBuilt { samples: usize },
    /// An epoch over the training part ended with this average loss.
    EpochFinished { average_loss: T },
    /// The model was run on the most recent window; `None` where there was
    /// no window to run it on.
    Predicted { value: Option<T> },
    /// The observer has taken note of the final state.
    Reset,
}

/// What the driver of a run has to do next.
#[derive(Clone, Copy, Debug, PartialEq, Eq, Structural)]
pub enum TrainingAction {
    /// Build the dataset and report `DatasetBuilt`.
    BuildDataset,
    /// Train epoch `epoch` (counted from 0) on the first `train_size`
    /// samples in shuffled batches of `batch_size`, and report
    /// `EpochFinished`.
    RunEpoch { epoch: usize, train_size: usize, batch_size: usize },
    /// Run the model on the most recent window and report `Predicted`.
    Predict,
    /// Nothing: the run has ended, or the event was out of turn.
    Stop,
}

/// The samples of the leading training part when `total` samples are split
/// in order of time: four fifths, rounded down. The rest is held out.
pub open spec fn split_of(total: int) -> int {
    (4 * total) / 5
}

/// A dataset of `total` samples can be trained on in batches of
/// `batch_size`: the training part fills a batch and something is held
/// out.
pub open spec fn trainable(total: int, batch_size: int) -> bool {
    split_of(total) >= batch_size && total - split_of(total) >= 1
}

/// The message of a run that found no sample at all.
pub open spec fn no_data_text() -> Seq<char> {
    "Not enough data to build training dataset. Load more market data."@
}

/// The character of one decimal digit.
pub open spec fn digit_of(d: nat) -> char {
    if d == 0 {
        '0'
    } else if d == 1 {
        '1'
    } else if d == 2 {
        '2'
    } else if d == 3 {
        '3'
    } else if d == 4 {
        '4'
    } else if d == 5 {
        '5'
    } else if d == 6 {
        '6'
    } else if d == 7 {
        '7'
    } else if d == 8 {
        '8'
    } else {
        '9'
    }
}

/// A number written in decimal digits, without leading zeros.
pub open spec fn decimal(n: nat) -> Seq<char>
    decreases n,
{
    if n < 10 {
        seq![digit_of(n)]
    } else {
        decimal(n / 10).push(digit_of(n % 10))
    }
}

/// The message of a run whose dataset of `samples` samples is too small.
pub open spec fn too_small_text(samples: usize) -> Seq<char> {
    "Dataset too small ("@ + decimal(samples as nat) + " samples). Need more data."@
}

fn digit(d: usize) -> (out: &'static str)
    requires
        d < 10,
    ensures
        out@ == seq![digit_of(d as nat)],
{
    proof {
        reveal_strlit("0");
        reveal_strlit("1");
        reveal_strlit("2");
        reveal_strlit("3");
        reveal_strlit("4");
        reveal_strlit("5");
        reveal_strlit("6");
        reveal_strlit("7");
        reveal_strlit("8");
        reveal_strlit("9");
    }
    let out = if d == 0 {
        "0"
    } else if d == 1 {
        "1"
    } else if d == 2 {
        "2"
    } else if d == 3 {
        "3"
    } else if d == 4 {
        "4"
    } else if d == 5 {
        "5"
    } else if d == 6 {
        "6"
    } else if d == 7 {
        "7"
    } else if d == 8 {
        "8"
    } else {
        "9"
    };
    assert(out@ =~= seq![digit_of(d as nat)]);
    out
}

fn push_decimal(text: &mut String, n: usize)
    ensures
        final(text)@ == old(text)@ + decimal(n as nat),
    decreases n,
{
    if n >= 10 {
        push_decimal(text, n / 10);
    }
    text.append(digit(n % 10));
    assert(text@ =~= old(text)@ + decimal(n as nat));
}

fn too_small_message(samples: usize) -> (out: String)
    ensures
        out@ == too_small_text(samples),
{
    let mut text = "Dataset too small (".to_owned();
    push_decimal(&mut text, samples);
    text.append(" samples). Need more data.");
    text
}

/// The state of a run as a plain value.
pub struct RunView<T> {
    pub status: StatusView<T>,
    pub losses: Seq<T>,
    pub predictions: Seq<(String, T)>,
    pub symbols: Seq<String>,
    pub stage: Stage,
    pub total_epochs: usize,
    pub batch_size: usize,
    pub epochs_done: usize,
    pub train_size: usize,
    pub worst_loss: T,
    pub best_loss: T,
}

impl<T> RunView<T> {
    /// The best loss is the value the run started with or the average
    /// loss of one of the finished epochs.
    pub open spec fn best_was_observed(self) -> bool {
        self.best_loss == self.worst_loss || exists|i: int|
            0 <= i < self.losses.len() && #[trigger] self.losses[i] == self.best_loss
    }

    /// What holds of every run: one recorded loss per finished epoch, no
    /// more epochs than planned, while training at least one to go, the
    /// status in step with the epochs, and the best loss one that was
    /// observed.
    pub open spec fn wf(self) -> bool {
        &&& self.losses.len() == self.epochs_done
        &&& self.epochs_done <= self.total_epochs
        &&& self.stage == Stage::Training ==> self.epochs_done < self.total_epochs
        &&& self.stage == Stage::Building ==> self.epochs_done == 0
        &&& self.status matches StatusView::Training { epoch, total_epochs, .. } ==> epoch
            == self.epochs_done && total_epochs == self.total_epochs
        &&& self.status matches StatusView::Complete { final_loss } ==> final_loss
            == self.best_loss
        &&& self.best_was_observed()
    }

    /// The run has ended with this error message.
    pub open spec fn failed(self, message: Seq<char>) -> RunView<T> {
        RunView { status: StatusView::Error(message), stage: Stage::Finished, ..self }
    }
}

/// The forecast list: `value` for every symbol, in the symbols' order.
pub open spec fn broadcast_of<T>(symbols: Seq<String>, value: T) -> Seq<(String, T)> {
    Seq::new(symbols.len(), |i: int| (symbols[i], value))
}

/// The state of a run just after its start: status `Training` at epoch 0
/// with the loss not yet known, nothing recorded, the dataset awaited.
pub open spec fn started<T>(
    symbols: Seq<String>,
    total_epochs: usize,
    batch_size: usize,
    unknown_loss: T,
    worst_loss: T,
) -> RunView<T> {
    RunView {
        status: StatusView::Training { epoch: 0, total_epochs, loss: unknown_loss },
        losses: Seq::empty(),
        predictions: Seq::empty(),
        symbols,
        stage: Stage::Building,
        total_epochs,
        batch_size,
        epochs_done: 0,
        train_size: 0,
        worst_loss,
        best_loss: worst_loss,
    }
}

/// The state that follows `run` on `event`. An event that the stage does
/// not await changes nothing. `improved` is the answer to whether the
/// epoch's average loss lies below the best loss so far; it is read only
/// when an epoch is taken.
pub open spec fn step<T>(run: RunView<T>, event: TrainingEvent<T>, improved: bool) -> RunView<T> {
    match (run.stage, event) {
        (Stage::Building, TrainingEvent::DatasetBuilt { samples }) => {
            if samples == 0 {
                run.failed(no_data_text())
            } else if !trainable(samples as int, run.batch_size as int) {
                run.failed(too_small_text(samples))
            } else if run.total_epochs == 0 {
                RunView { stage: Stage::Predicting, train_size: split_of(samples as int) as usize, ..run }
            } else {
                RunView { stage: Stage::Training, train_size: split_of(samples as int) as usize, ..run }
            }
        },
        (Stage::Training, TrainingEvent::EpochFinished { average_loss }) => {
            let done = (run.epochs_done + 1) as usize;
            RunView {
                status: StatusView::Training {
                    epoch: done,
                    total_epochs: run.total_epochs,
                    loss: average_loss,
                },
                losses: run.losses.push(average_loss),
                epochs_done: done,
                best_loss: if improved {
                    average_loss
                } else {
                    run.best_loss
                },
                stage: if done < run.total_epochs {
                    Stage::Training
                } else {
                    Stage::Predicting
                },
                ..run
            }
        },
        (Stage::Predicting, TrainingEvent::Predicted { value }) => RunView {
            status: StatusView::Complete { final_loss: run.best_loss },
            predictions: match value {
                Some(v) => broadcast_of(run.symbols, v),
                None => run.predictions,
            },
            stage: Stage::Finished,
            ..run
        },
        (Stage::Finished, TrainingEvent::Reset) => RunView { status: StatusView::Idle, ..run },
        _ => run,
    }
}

/// What the driver has to do after `run` has taken `event`.
pub open spec fn action_of<T>(run: RunView<T>, event: TrainingEvent<T>) -> TrainingAction {
    let next = step(run, event, false);
    let awaited = match (run.stage, event) {
        (Stage::Building, TrainingEvent::DatasetBuilt { .. }) => true,
        (Stage::Training, TrainingEvent::EpochFinished { .. }) => true,
        _ => false,
    };
    if !awaited {
        TrainingAction::Stop
    } else {
        match next.stage {
            Stage::Training => TrainingAction::RunEpoch {
                epoch: next.epochs_done,
                train_size: next.train_size,
                batch_size: next.batch_size,
            },
            Stage::Predicting => TrainingAction::Predict,
            _ => TrainingAction::Stop,
        }
    }
}

/// `next` is a state that follows `run` on `event` when `below` decides
/// whether an epoch's average loss improves on the best so far: the best
/// loss is replaced by the average exactly when `below` answered true on
/// the average and the best.
pub open spec fn advanced<T, L: Fn(T, T) -> bool>(
    below: L,
    run: RunView<T>,
    event: TrainingEvent<T>,
    next: RunView<T>,
) -> bool {
    if run.stage == Stage::Training && event is EpochFinished {
        exists|improved: bool|
            #[trigger] call_ensures(below, (event->average_loss, run.best_loss), improved) && next
                == step(run, event, improved)
    } else {
        next == step(run, event, false)
    }
}

/// The state after `run` has taken all of `events` in turn, the
/// comparison having answered `answers[i]` at event `i`.
pub open spec fn run_all<T>(
    run: RunView<T>,
    events: Seq<TrainingEvent<T>>,
    answers: Seq<bool>,
) -> RunView<T>
    decreases events.len(),
{
    if events.len() == 0 {
        run
    } else {
        step(run_all(run, events.drop_last(), answers.drop_last()), events.last(), answers.last())
    }
}

/// The epoch that a status shows: that of `Training`, and 0 otherwise.
pub open spec fn epoch_of<T>(status: StatusView<T>) -> int {
    match status {
        StatusView::Training { epoch, .. } => epoch as int,
        _ => 0,
    }
}

/// `lt` is a strict order: nothing lies below itself, and below is handed
/// on. The comparison `<` of floating-point numbers is one, with nothing
/// below or above a value that is not a number.
pub open spec fn strict_order<T>(lt: spec_fn(T, T) -> bool) -> bool {
    &&& forall|a: T| !#[trigger] lt(a, a)
    &&& forall|a: T, b: T, c: T| #[trigger] lt(a, b) && #[trigger] lt(b, c) ==> lt(a, c)
}

/// No recorded loss lies below the best loss.
pub open spec fn none_below<T>(lt: spec_fn(T, T) -> bool, run: RunView<T>) -> bool {
    forall|i: int| 0 <= i < run.losses.len() ==> !lt(#[trigger] run.losses[i], run.best_loss)
}

/// At every epoch among `events` the answer was that of `lt` on the epoch's
/// average loss and the best loss before it.
pub open spec fn answered_by<T>(
    lt: spec_fn(T, T) -> bool,
    run: RunView<T>,
    events: Seq<TrainingEvent<T>>,
    answers: Seq<bool>,
) -> bool
    decreases events.len(),
{
    if events.len() == 0 {
        true
    } else {
        let before = run_all(run, events.drop_last(), answers.drop_last());
        &&& answered_by(lt, run, events.drop_last(), answers.drop_last())
        &&& events.last() is EpochFinished ==> answers.last() == lt(
            events.last()->average_loss,
            before.best_loss,
        )
    }
}

/// A step keeps a run well-formed.
pub proof fn lemma_step_keeps_wf<T>(run: RunView<T>, event: TrainingEvent<T>, improved: bool)
    requires
        run.wf(),
    ensures
        step(run, event, improved).wf(),
{
    let next = step(run, event, improved);
    assert(next.worst_loss == run.worst_loss);
    if run.stage == Stage::Training && event is EpochFinished && improved {
        assert(next.losses[run.losses.len() as int] == next.best_loss);
    } else {
        assert(next.best_loss == run.best_loss);
        if run.best_loss != run.worst_loss {
            let i = choose|i: int|
                0 <= i < run.losses.len() && #[trigger] run.losses[i] == run.best_loss;
            assert(next.losses[i] == next.best_loss);
        }
    }
    assert(next.best_was_observed());
}

/// All steps of a sequence of events keep a run well-formed.
pub proof fn lemma_run_keeps_wf<T>(
    run: RunView<T>,
    events: Seq<TrainingEvent<T>>,
    answers: Seq<bool>,
)
    requires
        run.wf(),
    ensures
        run_all(run, events, answers).wf(),
    decreases events.len(),
{
    if events.len() > 0 {
        lemma_run_keeps_wf(run, events.drop_last(), answers.drop_last());
        lemma_step_keeps_wf(
            run_all(run, events.drop_last(), answers.drop_last()),
            events.last(),
            answers.last(),
        );
    }
}

/// No step changes the value that the run started with.
pub proof fn lemma_worst_loss_stays<T>(
    run: RunView<T>,
    events: Seq<TrainingEvent<T>>,
    answers: Seq<bool>,
)
    ensures
        run_all(run, events, answers).worst_loss == run.worst_loss,
    decreases events.len(),
{
    if events.len() > 0 {
        lemma_worst_loss_stays(run, events.drop_last(), answers.drop_last());
    }
}

/// A run that ends in `Complete` reports as its final loss the value it
/// started with or the average loss of one of its epochs.
pub proof fn lemma_final_loss_was_observed<T>(
    run: RunView<T>,
    events: Seq<TrainingEvent<T>>,
    answers: Seq<bool>,
)
    requires
        run.wf(),
    ensures
        run_all(run, events, answers).status matches StatusView::Complete { final_loss }
            ==> final_loss == run.worst_loss || run_all(run, events, answers).losses.contains(
            final_loss,
        ),
{
    lemma_run_keeps_wf(run, events, answers);
    lemma_worst_loss_stays(run, events, answers);
    let end = run_all(run, events, answers);
    if end.status is Complete && end.best_loss != end.worst_loss {
        let i = choose|i: int| 0 <= i < end.losses.len() && #[trigger] end.losses[i] == end.best_loss;
        assert(end.losses.contains(end.losses[i]));
    }
}

/// Where the comparison is a strict order and answers by it, a step keeps
/// the best loss lowest: no recorded loss lies below it.
pub proof fn lemma_best_stays_lowest<T>(
    lt: spec_fn(T, T) -> bool,
    run: RunView<T>,
    event: TrainingEvent<T>,
    improved: bool,
)
    requires
        strict_order(lt),
        none_below(lt, run),
        event is EpochFinished ==> improved == lt(event->average_loss, run.best_loss),
    ensures
        none_below(lt, step(run, event, improved)),
{
    let next = step(run, event, improved);
    if run.stage == Stage::Training && event is EpochFinished {
        let average = event->average_loss;
        assert forall|i: int| 0 <= i < next.losses.len() implies !lt(
            #[trigger] next.losses[i],
            next.best_loss,
        ) by {
            if i < run.losses.len() {
                assert(next.losses[i] == run.losses[i]);
                if improved && lt(run.losses[i], average) {
                    assert(lt(average, run.best_loss));
                    assert(lt(run.losses[i], run.best_loss));
                }
            } else {
                assert(next.losses[i] == average);
            }
        }
    } else {
        assert(next.losses == run.losses && next.best_loss == run.best_loss);
    }
}

/// The final loss is the minimum of the epoch averages: in a run from its
/// start, with a comparison that is a strict order, no epoch's average loss
/// lies below the final loss that `Complete` carries, and the final loss is
/// one of the averages or the value the run started with.
pub proof fn lemma_final_loss_is_lowest<T>(
    lt: spec_fn(T, T) -> bool,
    symbols: Seq<String>,
    total_epochs: usize,
    batch_size: usize,
    unknown_loss: T,
    worst_loss: T,
    events: Seq<TrainingEvent<T>>,
    answers: Seq<bool>,
)
    requires
        strict_order(lt),
        answered_by(
            lt,
            started(symbols, total_epochs, batch_size, unknown_loss, worst_loss),
            events,
            answers,
        ),
    ensures
        ({
            let begun = started(symbols, total_epochs, batch_size, unknown_loss, worst_loss);
            let end = run_all(begun, events, answers);
            &&& none_below(lt, end)
            &&& end.status matches StatusView::Complete { final_loss } ==> {
                &&& forall|i: int|
                    0 <= i < end.losses.len() ==> !lt(#[trigger] end.losses[i], final_loss)
                &&& final_loss == worst_loss || end.losses.contains(final_loss)
            }
        }),
    decreases events.len(),
{
    let begun = started(symbols, total_epochs, batch_size, unknown_loss, worst_loss);
    if events.len() > 0 {
        lemma_final_loss_is_lowest(
            lt,
            symbols,
            total_epochs,
            batch_size,
            unknown_loss,
            worst_loss,
            events.drop_last(),
            answers.drop_last(),
        );
        lemma_best_stays_lowest(
            lt,
            run_all(begun, events.drop_last(), answers.drop_last()),
            events.last(),
            answers.last(),
        );
    }
    lemma_run_keeps_wf(begun, events, answers);
    lemma_final_loss_was_observed(begun, events, answers);
}

/// A finished run stays finished. No event changes it but `Reset`, which
/// sets the status back to `Idle` and nothing else.
pub proof fn lemma_finished_is_terminal<T>(run: RunView<T>, event: TrainingEvent<T>, improved: bool)
    requires
        run.stage == Stage::Finished,
    ensures
        step(run, event, improved).stage == Stage::Finished,
        !(event is Reset) ==> step(run, event, improved) == run,
        event is Reset ==> step(run, event, improved) == (RunView {
            status: StatusView::Idle,
            ..run
        }),
{
}

/// While a run trains, the epoch that its status shows never goes down,
/// and the loss history grows by one per epoch shown.
pub proof fn lemma_epochs_never_decrease<T>(run: RunView<T>, event: TrainingEvent<T>, improved: bool)
    requires
        run.wf(),
    ensures
        step(run, event, improved).status is Training ==> epoch_of(
            step(run, event, improved).status,
        ) >= epoch_of(run.status),
        step(run, event, improved).losses.len() >= run.losses.len(),
        step(run, event, improved).status is Training ==> step(run, event, improved).losses.len()
            == epoch_of(step(run, event, improved).status),
{
}

/// A run whose dataset cannot be trained on (it is empty, its training
/// part does not fill one batch, or nothing is left to hold out) ends in
/// `Error` as soon as the dataset is reported, the driver is told to stop,
/// and whatever is reported later, the status never shows an epoch above 0
/// and no loss is ever recorded.
pub proof fn lemma_small_dataset_never_trains<T>(
    symbols: Seq<String>,
    total_epochs: usize,
    batch_size: usize,
    unknown_loss: T,
    worst_loss: T,
    samples: usize,
    later: Seq<TrainingEvent<T>>,
    answers: Seq<bool>,
)
    requires
        !trainable(samples as int, batch_size as int),
    ensures
        ({
            let begun = started(symbols, total_epochs, batch_size, unknown_loss, worst_loss);
            let built = TrainingEvent::DatasetBuilt { samples };
            let end = run_all(step(begun, built, false), later, answers);
            &&& step(begun, built, false).status is Error
            &&& action_of(begun, built) == TrainingAction::Stop
            &&& end.stage == Stage::Finished
            &&& end.status is Error || end.status is Idle
            &&& epoch_of(end.status) == 0
            &&& end.losses.len() == 0
        }),
    decreases later.len(),
{
    let begun = started(symbols, total_epochs, batch_size, unknown_loss, worst_loss);
    let built = TrainingEvent::DatasetBuilt { samples };
    if later.len() > 0 {
        lemma_small_dataset_never_trains(
            symbols,
            total_epochs,
            batch_size,
            unknown_loss,
            worst_loss,
            samples,
            later.drop_last(),
            answers.drop_last(),
        );
        lemma_finished_is_terminal(
            run_all(step(begun, built, false), later.drop_last(), answers.drop_last()),
            later.last(),
            answers.last(),
        );
    }
}

/// A dataset with fewer samples than one batch cannot be trained on.
pub proof fn lemma_below_one_batch(samples: usize, batch_size: usize)
    requires
        samples < batch_size,
    ensures
        !trainable(samples as int, batch_size as int),
{
}

/// The leading training part of `total` samples split in order of time:
/// four fifths of them, rounded down.
pub fn split_point(total: usize) -> (out: usize)
    ensures
        out == split_of(total as int),
        out <= total,
{
    let q = total / 5;
    let r = total % 5;
    q * 4 + r * 4 / 5
}

/// One training run: the progress that its observer reads, and what the
/// run itself has to remember between two pieces of outside work.
pub struct TrainingRun<T> {
    progress: TrainingProgress<T>,
    symbols: Vec<String>,
    stage: Stage,
    total_epochs: usize,
    batch_size: usize,
    epochs_done: usize,
    train_size: usize,
    worst_loss: T,
    best_loss: T,
}

impl<T> View for TrainingRun<T> {
    type V = RunView<T>;

    closed spec fn view(&self) -> RunView<T> {
        RunView {
            status: self.progress.status@,
            losses: self.progress.losses@,
            predictions: self.progress.predictions@,
            symbols: self.symbols@,
            stage: self.stage,
            total_epochs: self.total_epochs,
            batch_size: self.batch_size,
            epochs_done: self.epochs_done,
            train_size: self.train_size,
            worst_loss: self.worst_loss,
            best_loss: self.best_loss,
        }
    }
}

fn broadcast<T: Copy>(symbols: &Vec<String>, value: T) -> (out: Vec<(String, T)>)
    ensures
        out@ == broadcast_of(symbols@, value),
{
    let mut out: Vec<(String, T)> = Vec::new();
    let mut i: usize = 0;
    while i < symbols.len()
        invariant
            i <= symbols@.len(),
            out@.len() == i,
            forall|k: int| 0 <= k < i ==> out@[k] == (symbols@[k], value),
        decreases symbols@.len() - i,
    {
        out.push((symbols[i].clone(), value));
        i += 1;
    }
    assert(out@ =~= broadcast_of(symbols@, value));
    out
}

impl<T: Copy> TrainingRun<T> {
    /// Starts a run over `total_epochs` epochs in batches of `batch_size`
    /// for the given symbols. The status is `Training` at epoch 0 with
    /// `unknown_loss` (the caller's "not a number"), and `worst_loss` (the
    /// caller's infinity) stands for the best loss until an epoch improves
    /// on it. The driver has to build the dataset next.
    pub fn start(
        symbols: Vec<String>,
        total_epochs: usize,
        batch_size: usize,
        unknown_loss: T,
        worst_loss: T,
    ) -> (out: (Self, TrainingAction))
        ensures
            out.0@ == started(symbols@, total_epochs, batch_size, unknown_loss, worst_loss),
            out.0@.wf(),
            out.1 == TrainingAction::BuildDataset,
    {
        let run = TrainingRun {
            progress: TrainingProgress {
                status: TrainingStatus::Training { epoch: 0, total_epochs, loss: unknown_loss },
                losses: Vec::new(),
                predictions: Vec::new(),
            },
            symbols,
            stage: Stage::Building,
            total_epochs,
            batch_size,
            epochs_done: 0,
            train_size: 0,
            worst_loss,
            best_loss: worst_loss,
        };
        (run, TrainingAction::BuildDataset)
    }

    /// Takes what the driver reports and says what it has to do next. When
    /// an epoch is reported, `below` is asked whether its average loss lies
    /// below the best loss so far, and the best loss is replaced by the
    /// average exactly when it answers true.
    pub fn advance<L: Fn(T, T) -> bool>(&mut self, event: TrainingEvent<T>, below: &L) -> (action:
        TrainingAction)
        requires
            old(self)@.wf(),
            old(self)@.stage == Stage::Training && event is EpochFinished ==> call_requires(
                *below,
                (event->average_loss, old(self)@.best_loss),
            ),
        ensures
            advanced(*below, old(self)@, event, final(self)@),
            action == action_of(old(self)@, event),
            final(self)@.wf(),
    {
        match (self.stage, event) {
            (Stage::Building, TrainingEvent::DatasetBuilt { samples }) => {
                proof {
                    lemma_step_keeps_wf(self@, event, false);
                }
                if samples == 0 {
                    self.progress.status = TrainingStatus::Error(
                        "Not enough data to build training dataset. Load more market data.".to_owned(),
                    );
                    self.stage = Stage::Finished;
                    return TrainingAction::Stop;
                }
                let train = split_point(samples);
                if train < self.batch_size || samples - train < 1 {
                    self.progress.status = TrainingStatus::Error(too_small_message(samples));
                    self.stage = Stage::Finished;
                    return TrainingAction::Stop;
                }
                self.train_size = train;
                if self.total_epochs == 0 {
                    self.stage = Stage::Predicting;
                    TrainingAction::Predict
                } else {
                    self.stage = Stage::Training;
                    TrainingAction::RunEpoch { epoch: 0, train_size: train, batch_size: self.batch_size }
                }
            },
            (Stage::Training, TrainingEvent::EpochFinished { average_loss }) => {
                let improved = below(average_loss, self.best_loss);
                proof {
                    lemma_step_keeps_wf(self@, event, improved);
                }
                self.epochs_done = self.epochs_done + 1;
                self.progress.losses.push(average_loss);
                self.progress.status = TrainingStatus::Training {
                    epoch: self.epochs_done,
                    total_epochs: self.total_epochs,
                    loss: average_loss,
                };
                if improved {
                    self.best_loss = average_loss;
                }
                let action = if self.epochs_done < self.total_epochs {
                    TrainingAction::RunEpoch {
                        epoch: self.epochs_done,
                        train_size: self.train_size,
                        batch_size: self.batch_size,
                    }
                } else {
                    self.stage = Stage::Predicting;
                    TrainingAction::Predict
                };
                assert(self@ == step(old(self)@, event, improved));
                action
            },
            (Stage::Predicting, TrainingEvent::Predicted { value }) => {
                proof {
                    lemma_step_keeps_wf(self@, event, false);
                }
                if let Some(v) = value {
                    self.progress.predictions = broadcast(&self.symbols, v);
                }
                self.progress.status = TrainingStatus::Complete { final_loss: self.best_loss };
                self.stage = Stage::Finished;
                TrainingAction::Stop
            },
            (Stage::Finished, TrainingEvent::Reset) => {
                proof {
                    lemma_step_keeps_wf(self@, event, false);
                }
                self.progress.status = TrainingStatus::Idle;
                TrainingAction::Stop
            },
            _ => TrainingAction::Stop,
        }
    }

    /// The progress as the observer reads it.
    pub fn progress(&self) -> (out: &TrainingProgress<T>)
        ensures
            out.status@ == self@.status,
            out.losses@ == self@.losses,
            out.predictions@ == self@.predictions,
    {
        &self.progress
    }

    /// The stage of the run.
    pub fn stage(&self) -> (out: Stage)
        ensures
            out == self@.stage,
    {
        self.stage
    }

    /// The best epoch loss so far: the starting value until an epoch's
    /// average was found below it.
    pub fn best_loss(&self) -> (out: T)
        ensures
            out == self@.best_loss,
    {
        self.best_loss
    }
}

} // verus!
