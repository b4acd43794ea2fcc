//! What holds of every session, whatever it is told.

use vstd::prelude::*;
use crate::handler::{
    chat_text, fresh_session, in_phase, join_notice, leave_notice, login_text, spec_step,
    valid_session, ActionView, EventView, Phase, SessionView,
};
use crate::message::{normal_line, system_line, BAD_LOGIN_MSG, MAX_LINE_LENGTH, WELCOME_MSG};
use crate::users::spec_login;

verus! {

/// What happened to a session, in order: each event with its time.
pub type History = Seq<(EventView, Seq<char>)>;

/// The session after all of `history`, and all that it asked for, in order.
pub open spec fn spec_run(s: SessionView, history: History) -> (SessionView, Seq<ActionView>)
    decreases history.len(),
{
    if history.len() == 0 {
        (s, seq![])
    } else {
        let (mid, asked) = spec_run(s, history.drop_last());
        let (end, more) = spec_step(mid, history.last().0, history.last().1);
        (end, asked + more)
    }
}

/// The lines among `actions` that go to the socket, in order.
pub open spec fn written(actions: Seq<ActionView>) -> Seq<Seq<char>>
    decreases actions.len(),
{
    if actions.len() == 0 {
        seq![]
    } else {
        match actions.last() {
            ActionView::Write(line) => written(actions.drop_last()).push(line),
            _ => written(actions.drop_last()),
        }
    }
}

/// The lines among `actions` that go to the hub, in order.
pub open spec fn published(actions: Seq<ActionView>) -> Seq<Seq<char>>
    decreases actions.len(),
{
    if actions.len() == 0 {
        seq![]
    } else {
        match actions.last() {
            ActionView::Publish(line) => published(actions.drop_last()).push(line),
            _ => published(actions.drop_last()),
        }
    }
}

/// The history in which the hub delivers `lines`, one after the other, at
/// the given times.
pub open spec fn deliveries(lines: Seq<Seq<char>>, times: Seq<Seq<char>>) -> History
    recommends
        lines.len() == times.len(),
{
    Seq::new(lines.len(), |i: int| (EventView::Delivered(lines[i]), times[i]))
}

/// The history in which the socket gives `reads`, one after the other, at
/// the given times.
pub open spec fn receptions(reads: Seq<Seq<u8>>, times: Seq<Seq<char>>) -> History
    recommends
        reads.len() == times.len(),
{
    Seq::new(reads.len(), |i: int| (EventView::Received(reads[i]), times[i]))
}

/// The chat lines that `uname` sends for `reads` at `times`.
pub open spec fn chat_lines(uname: Seq<char>, reads: Seq<Seq<u8>>, times: Seq<Seq<char>>) -> Seq<
    Seq<char>,
>
    recommends
        reads.len() == times.len(),
{
    Seq::new(reads.len(), |i: int| normal_line(times[i], uname, chat_text(reads[i])))
}

/// A step at a time: an attempt to log in that the validator turns down.
pub open spec fn is_failed_attempt(event: EventView) -> bool {
    match event {
        EventView::Received(bytes) => bytes.len() > 0,
        EventView::Verdict(None) => true,
        _ => false,
    }
}

/// `written` and `published` go through a list piece by piece.
pub proof fn lemma_split(a: Seq<ActionView>, b: Seq<ActionView>)
    ensures
        written(a + b) == written(a) + written(b),
        published(a + b) == published(a) + published(b),
    decreases b.len(),
{
    if b.len() == 0 {
        assert(a + b =~= a);
        assert(written(a) + written(b) =~= written(a));
        assert(published(a) + published(b) =~= published(a));
    } else {
        lemma_split(a, b.drop_last());
        assert((a + b).drop_last() =~= a + b.drop_last());
        assert((a + b).last() == b.last());
        match b.last() {
            ActionView::Write(line) => {
                assert(written(a + b) =~= written(a) + written(b));
            },
            ActionView::Publish(line) => {
                assert(published(a + b) =~= published(a) + published(b));
            },
            _ => {},
        }
    }
}

/// A valid session stays valid, whatever happens.
pub proof fn lemma_step_keeps_valid(s: SessionView, event: EventView, time: Seq<char>)
    requires
        valid_session(s),
    ensures
        valid_session(spec_step(s, event, time).0),
{
}

/// The name of a session never changes once it has one.
pub proof fn lemma_name_is_kept(s: SessionView, event: EventView, time: Seq<char>)
    requires
        valid_session(s),
        s.username is Some,
    ensures
        spec_step(s, event, time).0.username == s.username,
{
}

/// A login put to the validator and accepted by it takes the session to
/// relaying under the accepted name. The connection gets the welcome and
/// nothing else; the session subscribes and then publishes the join
/// notice, so that, when the hub hands that notice back, it is the next
/// and only line written.
pub proof fn lemma_accepted_login(
    s: SessionView,
    bytes: Seq<u8>,
    uname: Seq<char>,
    asked_at: Seq<char>,
    time: Seq<char>,
    later: Seq<char>,
)
    requires
        valid_session(s),
        s.phase == Phase::Authenticating,
        bytes.len() > 0,
    ensures
        ({
            let (waiting, question) = spec_step(s, EventView::Received(bytes), asked_at);
            let (relaying, asked) = spec_step(waiting, EventView::Verdict(Some(uname)), time);
            let notice = system_line(time, join_notice(uname));
            let (after, echoed) = spec_step(relaying, EventView::Delivered(notice), later);
            &&& waiting == s
            &&& question == seq![ActionView::Validate(login_text(bytes))]
            &&& relaying == SessionView { phase: Phase::Relaying, username: Some(uname) }
            &&& asked == seq![
                ActionView::Write(system_line(time, WELCOME_MSG@)),
                ActionView::Subscribe,
                ActionView::Publish(notice),
            ]
            &&& after == relaying
            &&& written(question + asked + echoed) == seq![
                system_line(time, WELCOME_MSG@),
                notice,
            ]
            &&& published(question + asked + echoed) == seq![notice]
        }),
{
    let question = seq![ActionView::Validate(login_text(bytes))];
    let (relaying, asked) = spec_step(s, EventView::Verdict(Some(uname)), time);
    let notice = system_line(time, join_notice(uname));
    let (after, echoed) = spec_step(relaying, EventView::Delivered(notice), later);
    let all = question + asked + echoed;
    assert(all =~= seq![
        ActionView::Validate(login_text(bytes)),
        ActionView::Write(system_line(time, WELCOME_MSG@)),
        ActionView::Subscribe,
        ActionView::Publish(notice),
        ActionView::Write(notice),
    ]);
    reveal_with_fuel(written, 6);
    reveal_with_fuel(published, 6);
    let d1 = all.drop_last();
    let d2 = d1.drop_last();
    let d3 = d2.drop_last();
    let d4 = d3.drop_last();
    assert(d1 =~= seq![
        ActionView::Validate(login_text(bytes)),
        ActionView::Write(system_line(time, WELCOME_MSG@)),
        ActionView::Subscribe,
        ActionView::Publish(notice),
    ]);
    assert(d2 =~= seq![
        ActionView::Validate(login_text(bytes)),
        ActionView::Write(system_line(time, WELCOME_MSG@)),
        ActionView::Subscribe,
    ]);
    assert(d3 =~= seq![
        ActionView::Validate(login_text(bytes)),
        ActionView::Write(system_line(time, WELCOME_MSG@)),
    ]);
    assert(d4 =~= seq![ActionView::Validate(login_text(bytes))]);
    assert(d4.drop_last() =~= Seq::<ActionView>::empty());
    assert(written(all) =~= seq![system_line(time, WELCOME_MSG@), notice]);
    assert(published(all) =~= seq![notice]);
}

/// A login put to the validator and turned down by it leaves the session
/// as it was, and the connection gets the bad-login line and nothing
/// else.
pub proof fn lemma_rejected_login(
    s: SessionView,
    bytes: Seq<u8>,
    asked_at: Seq<char>,
    time: Seq<char>,
)
    requires
        s.phase == Phase::Authenticating,
        bytes.len() > 0,
    ensures
        spec_step(s, EventView::Received(bytes), asked_at) == (
            s,
            seq![ActionView::Validate(login_text(bytes))],
        ),
        spec_step(s, EventView::Verdict(None), time) == (
            s,
            seq![ActionView::Write(system_line(time, BAD_LOGIN_MSG@))],
        ),
{
}

/// With the validator of this library, a read before the login is settled
/// by the login policy alone: where the policy accepts the login, the
/// session relays under the name before the colon; where it does not, the
/// session waits on.
pub proof fn lemma_login_by_policy(
    s: SessionView,
    bytes: Seq<u8>,
    asked_at: Seq<char>,
    time: Seq<char>,
)
    requires
        valid_session(s),
        s.phase == Phase::Authenticating,
        bytes.len() > 0,
    ensures
        ({
            let verdict = spec_login(login_text(bytes));
            let (waiting, question) = spec_step(s, EventView::Received(bytes), asked_at);
            let (end, asked) = spec_step(waiting, EventView::Verdict(verdict), time);
            &&& question == seq![ActionView::Validate(login_text(bytes))]
            &&& verdict is Some ==> end == (SessionView {
                phase: Phase::Relaying,
                username: verdict,
            })
            &&& verdict is None ==> end == s && asked == seq![
                ActionView::Write(system_line(time, BAD_LOGIN_MSG@)),
            ]
        }),
{
}

/// The history in which the validator turns a login down at each of
/// `times`.
pub open spec fn rejections(times: Seq<Seq<char>>) -> History {
    Seq::new(times.len(), |i: int| (EventView::Verdict(None), times[i]))
}

/// The bad-login lines dated `times`.
pub open spec fn bad_login_lines(times: Seq<Seq<char>>) -> Seq<Seq<char>> {
    Seq::new(times.len(), |i: int| system_line(times[i], BAD_LOGIN_MSG@))
}

/// Each login that is turned down is answered by one bad-login line, in
/// order, and by nothing else; the session waits on as before.
pub proof fn lemma_each_rejection_is_answered(s: SessionView, times: Seq<Seq<char>>)
    requires
        s.phase == Phase::Authenticating,
    ensures
        spec_run(s, rejections(times)).0 == s,
        written(spec_run(s, rejections(times)).1) == bad_login_lines(times),
        published(spec_run(s, rejections(times)).1) == Seq::<Seq<char>>::empty(),
    decreases times.len(),
{
    let history = rejections(times);
    if times.len() == 0 {
        assert(bad_login_lines(times) =~= Seq::<Seq<char>>::empty());
    } else {
        let n = times.len() - 1;
        let earlier = times.drop_last();
        lemma_each_rejection_is_answered(s, earlier);
        assert(history.drop_last() =~= rejections(earlier));
        assert(history.last() == (EventView::Verdict(None), times[n]));
        let before = spec_run(s, history.drop_last()).1;
        let line = system_line(times[n], BAD_LOGIN_MSG@);
        let more = seq![ActionView::Write(line)];
        assert(spec_run(s, history).1 == before + more);
        lemma_split(before, more);
        reveal_with_fuel(published, 2);
        reveal_with_fuel(written, 2);
        assert(more.drop_last() =~= Seq::<ActionView>::empty());
        assert(written(more) =~= seq![line]);
        assert(published(more) =~= Seq::<Seq<char>>::empty());
        assert(bad_login_lines(times) =~= bad_login_lines(earlier).push(line));
    }
}

/// However many logins fail, the session is as it was before them: still
/// waiting for a login, and a login accepted afterwards is taken.
pub proof fn lemma_failed_attempts_change_nothing(s: SessionView, history: History)
    requires
        s.phase == Phase::Authenticating,
        forall|i: int| 0 <= i < history.len() ==> is_failed_attempt(#[trigger] history[i].0),
    ensures
        spec_run(s, history).0 == s,
    decreases history.len(),
{
    if history.len() > 0 {
        let shorter = history.drop_last();
        assert forall|i: int| 0 <= i < shorter.len() implies is_failed_attempt(
            #[trigger] shorter[i].0,
        ) by {
            assert(shorter[i] == history[i]);
        }
        lemma_failed_attempts_change_nothing(s, shorter);
        assert(is_failed_attempt(history[history.len() - 1].0));
    }
}

/// A read of any length but none is handed on whole: as the login put to
/// the validator before the login, as the text of a chat line after it.
/// This holds of a read that fills the buffer as of any other.
pub proof fn lemma_read_is_kept_whole(s: SessionView, bytes: Seq<u8>, time: Seq<char>)
    requires
        valid_session(s),
        0 < bytes.len() <= MAX_LINE_LENGTH,
    ensures
        s.phase == Phase::Authenticating ==> spec_step(s, EventView::Received(bytes), time) == (
            s,
            seq![ActionView::Validate(login_text(bytes))],
        ),
        s.phase == Phase::Relaying ==> spec_step(s, EventView::Received(bytes), time) == (
            s,
            seq![ActionView::Publish(normal_line(time, s.username->0, chat_text(bytes)))],
        ),
{
}

/// A read of no bytes ends the session. Before the login nothing is
/// published; after it, the leave notice and nothing else.
pub proof fn lemma_empty_read_ends_session(s: SessionView, time: Seq<char>)
    requires
        valid_session(s),
    ensures
        s.phase == Phase::Authenticating ==> spec_step(
            s,
            EventView::Received(Seq::empty()),
            time,
        ) == (in_phase(s, Phase::Closed), Seq::<ActionView>::empty()),
        s.phase == Phase::Relaying ==> spec_step(s, EventView::Received(Seq::empty()), time) == (
            in_phase(s, Phase::Closed),
            seq![ActionView::Publish(system_line(time, leave_notice(s.username->0)))],
        ),
{
}

/// A chat line as the sender's session publishes it is what every relaying
/// session, the sender's own among them, writes when the hub delivers it.
pub proof fn lemma_chat_line_passes_unchanged(
    sender: SessionView,
    receiver: SessionView,
    bytes: Seq<u8>,
    sent: Seq<char>,
    delivered: Seq<char>,
)
    requires
        valid_session(sender),
        sender.phase == Phase::Relaying,
        receiver.phase == Phase::Relaying,
        bytes.len() > 0,
    ensures
        ({
            let line = normal_line(sent, sender.username->0, chat_text(bytes));
            &&& spec_step(sender, EventView::Received(bytes), sent) == (
                sender,
                seq![ActionView::Publish(line)],
            )
            &&& spec_step(receiver, EventView::Delivered(line), delivered) == (
                receiver,
                seq![ActionView::Write(line)],
            )
            &&& spec_step(sender, EventView::Delivered(line), delivered) == (
                sender,
                seq![ActionView::Write(line)],
            )
        }),
{
}

/// The leave notice that a session publishes when its peer closes is what
/// every relaying session writes when the hub delivers it.
pub proof fn lemma_leave_notice_passes_unchanged(
    leaver: SessionView,
    receiver: SessionView,
    left: Seq<char>,
    delivered: Seq<char>,
)
    requires
        valid_session(leaver),
        leaver.phase == Phase::Relaying,
        receiver.phase == Phase::Relaying,
    ensures
        ({
            let notice = system_line(left, leave_notice(leaver.username->0));
            &&& published(spec_step(leaver, EventView::Received(Seq::empty()), left).1) == seq![
                notice,
            ]
            &&& spec_step(receiver, EventView::Delivered(notice), delivered) == (
                receiver,
                seq![ActionView::Write(notice)],
            )
        }),
{
    let notice = system_line(left, leave_notice(leaver.username->0));
    let asked = spec_step(leaver, EventView::Received(Seq::empty()), left).1;
    assert(asked =~= seq![ActionView::Publish(notice)]);
    reveal_with_fuel(published, 2);
    assert(asked.drop_last() =~= Seq::<ActionView>::empty());
    assert(published(asked) =~= seq![notice]);
}

/// A relaying session publishes one chat line for each read that is not
/// empty, in the order of the reads, and nothing else.
pub proof fn lemma_lines_are_published_in_order(
    s: SessionView,
    reads: Seq<Seq<u8>>,
    times: Seq<Seq<char>>,
)
    requires
        valid_session(s),
        s.phase == Phase::Relaying,
        reads.len() == times.len(),
        forall|i: int| 0 <= i < reads.len() ==> (#[trigger] reads[i]).len() > 0,
    ensures
        spec_run(s, receptions(reads, times)).0 == s,
        published(spec_run(s, receptions(reads, times)).1) == chat_lines(
            s.username->0,
            reads,
            times,
        ),
        written(spec_run(s, receptions(reads, times)).1) == Seq::<Seq<char>>::empty(),
    decreases reads.len(),
{
    let history = receptions(reads, times);
    if reads.len() == 0 {
        assert(chat_lines(s.username->0, reads, times) =~= Seq::<Seq<char>>::empty());
    } else {
        let n = reads.len() - 1;
        let fewer = reads.drop_last();
        let earlier = times.drop_last();
        assert forall|i: int| 0 <= i < fewer.len() implies (#[trigger] fewer[i]).len() > 0 by {
            assert(fewer[i] == reads[i]);
        }
        lemma_lines_are_published_in_order(s, fewer, earlier);
        assert(history.drop_last() =~= receptions(fewer, earlier));
        assert(history.last() == (EventView::Received(reads[n]), times[n]));
        assert(reads[n].len() > 0);
        let before = spec_run(s, history.drop_last()).1;
        let line = normal_line(times[n], s.username->0, chat_text(reads[n]));
        let more = seq![ActionView::Publish(line)];
        assert(spec_run(s, history).1 == before + more);
        lemma_split(before, more);
        reveal_with_fuel(published, 2);
        reveal_with_fuel(written, 2);
        assert(more.drop_last() =~= Seq::<ActionView>::empty());
        assert(published(more) =~= seq![line]);
        assert(written(more) =~= Seq::<Seq<char>>::empty());
        assert(chat_lines(s.username->0, reads, times) =~= chat_lines(
            s.username->0,
            fewer,
            earlier,
        ).push(line));
    }
}

/// A relaying session writes the lines that the hub delivers, each as it
/// came and in the order of delivery, and nothing else. So where the hub
/// delivers one sender's lines in the order in which they were published,
/// the connection shows them in that order.
pub proof fn lemma_deliveries_are_written_in_order(
    s: SessionView,
    lines: Seq<Seq<char>>,
    times: Seq<Seq<char>>,
)
    requires
        s.phase == Phase::Relaying,
        lines.len() == times.len(),
    ensures
        spec_run(s, deliveries(lines, times)).0 == s,
        written(spec_run(s, deliveries(lines, times)).1) == lines,
        published(spec_run(s, deliveries(lines, times)).1) == Seq::<Seq<char>>::empty(),
    decreases lines.len(),
{
    let history = deliveries(lines, times);
    if lines.len() > 0 {
        let n = lines.len() - 1;
        let fewer = lines.drop_last();
        let earlier = times.drop_last();
        lemma_deliveries_are_written_in_order(s, fewer, earlier);
        assert(history.drop_last() =~= deliveries(fewer, earlier));
        assert(history.last() == (EventView::Delivered(lines[n]), times[n]));
        let before = spec_run(s, history.drop_last()).1;
        let more = seq![ActionView::Write(lines[n])];
        assert(spec_run(s, history).1 == before + more);
        lemma_split(before, more);
        reveal_with_fuel(published, 2);
        reveal_with_fuel(written, 2);
        assert(more.drop_last() =~= Seq::<ActionView>::empty());
        assert(written(more) =~= seq![lines[n]]);
        assert(published(more) =~= Seq::<Seq<char>>::empty());
        assert(lines =~= fewer.push(lines[n]));
    }
}

/// A session that has lost lines of the hub goes on as if nothing had
/// happened.
pub proof fn lemma_lag_is_not_fatal(s: SessionView, time: Seq<char>)
    ensures
        spec_step(s, EventView::Lagged, time) == (s, Seq::<ActionView>::empty()),
{
}

/// A session that is over asks for nothing more.
pub proof fn lemma_over_is_silent(s: SessionView, event: EventView, time: Seq<char>)
    requires
        s.phase == Phase::Closed || s.phase == Phase::Failed,
    ensures
        spec_step(s, event, time).1 == Seq::<ActionView>::empty(),
        spec_step(s, event, time).0.phase == Phase::Closed || spec_step(s, event, time).0.phase
            == Phase::Failed,
{
}

/// A failure to read, write or publish ends the session at once, with
/// nothing written and nothing published.
pub proof fn lemma_failure_ends_session(s: SessionView, event: EventView, time: Seq<char>)
    requires
        event is ReadFailed || event is WriteFailed || event is PublishFailed,
    ensures
        spec_step(s, event, time) == (in_phase(s, Phase::Failed), Seq::<ActionView>::empty()),
{
}

/// A new session is valid and waits for a login.
pub proof fn lemma_fresh_is_valid()
    ensures
        valid_session(fresh_session()),
        fresh_session().phase == Phase::Authenticating,
{
}

} // verus!
