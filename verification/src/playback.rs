//! Playing clips: what was asked for, and what a worker that owns the audio output has to
//! do about it.

use std::collections::VecDeque;
use vstd::prelude::*;

use crate::config::optional_text;

verus! {

/// What the worker is asked to do.
#[derive(Debug)]
pub enum Command {
    Play { key: String, path: String },
    Stop,
}

/// What a `Command` holds.
#[verifier::ext_equal]
pub enum CommandView {
    Play { key: Seq<char>, path: Seq<char> },
    Stop,
}

impl View for Command {
    type V = CommandView;

    open spec fn view(&self) -> CommandView {
        match *self {
            Command::Play { key, path } => CommandView::Play { key: key@, path: path@ },
            Command::Stop => CommandView::Stop,
        }
    }
}

/// What some commands hold.
pub open spec fn command_views(commands: Seq<Command>) -> Seq<CommandView> {
    commands.map_values(|c: Command| c@)
}

/// What happens to the worker.
#[derive(Debug)]
pub enum PlayerEvent {
    /// There is no audio output.
    OutputFailed,
    /// A command came, or it was waited for in vain; whether the clip has run out.
    Woken { run_out: bool },
    /// The clip that was to be loaded could be, or could not.
    Loaded { ok: bool },
    /// Nobody can send a command any more; those that were sent are still taken.
    Disconnected,
}

/// What the worker has to do.
#[derive(Debug)]
pub enum PlayerAction {
    /// Wait for a command.
    Wait,
    /// Load and play a clip, after stopping the one that plays, if one does.
    Load { stop_first: bool, key: String, path: String },
    /// Stop the clip that plays, if one does.
    Halt { stop_first: bool },
    /// Let go of a clip that has run out.
    Discard,
    /// End.
    Exit,
}

/// What a `PlayerAction` holds.
#[verifier::ext_equal]
pub enum PlayerActionView {
    Wait,
    Load { stop_first: bool, key: Seq<char>, path: Seq<char> },
    Halt { stop_first: bool },
    Discard,
    Exit,
}

impl View for PlayerAction {
    type V = PlayerActionView;

    open spec fn view(&self) -> PlayerActionView {
        match *self {
            PlayerAction::Wait => PlayerActionView::Wait,
            PlayerAction::Load { stop_first, key, path } => PlayerActionView::Load {
                stop_first,
                key: key@,
                path: path@,
            },
            PlayerAction::Halt { stop_first } => PlayerActionView::Halt { stop_first },
            PlayerAction::Discard => PlayerActionView::Discard,
            PlayerAction::Exit => PlayerActionView::Exit,
        }
    }
}

/// A player: the commands on their way to the worker and the clip that is shown as playing.
#[derive(Debug)]
pub struct Player {
    commands: VecDeque<Command>,
    connected: bool,
    current: Option<String>,
    loading: Option<String>,
    loaded: Option<String>,
}

/// What a `Player` holds.
#[verifier::ext_equal]
pub struct PlayerView {
    /// The commands that the worker has not taken yet, the oldest first.
    pub commands: Seq<CommandView>,
    /// The worker runs and takes commands.
    pub connected: bool,
    /// The clip to be shown as playing.
    pub current: Option<Seq<char>>,
    /// The clip that the worker is loading.
    pub loading: Option<Seq<char>>,
    /// The clip that the worker has loaded and plays.
    pub loaded: Option<Seq<char>>,
}

impl View for Player {
    type V = PlayerView;

    closed spec fn view(&self) -> PlayerView {
        PlayerView {
            commands: command_views(self.commands@),
            connected: self.connected,
            current: optional_text(self.current),
            loading: optional_text(self.loading),
            loaded: optional_text(self.loaded),
        }
    }
}

impl PlayerView {
    /// A player that plays nothing.
    pub open spec fn fresh() -> PlayerView {
        PlayerView {
            commands: Seq::empty(),
            connected: true,
            current: None,
            loading: None,
            loaded: None,
        }
    }

    /// The clip that is shown as playing. Without a worker nothing plays.
    pub open spec fn shown(self) -> Option<Seq<char>> {
        if self.connected {
            self.current
        } else {
            None
        }
    }

    /// A command is on its way, unless there is no worker.
    pub open spec fn sent(self, command: CommandView) -> PlayerView {
        PlayerView {
            commands: if self.connected {
                self.commands.push(command)
            } else {
                self.commands
            },
            ..self
        }
    }

    /// A clip is to be played, where there is a worker that can.
    pub open spec fn playing(self, key: Seq<char>, path: Seq<char>) -> PlayerView {
        PlayerView {
            current: if self.connected {
                Some(key)
            } else {
                None
            },
            ..self
        }.sent(CommandView::Play { key, path })
    }

    /// Nothing is to be played.
    pub open spec fn stopped(self) -> PlayerView {
        PlayerView { current: None, ..self }.sent(CommandView::Stop)
    }

    /// The worker ends, and with it the clip that it plays.
    pub open spec fn ended(self) -> PlayerView {
        PlayerView {
            connected: false,
            commands: Seq::empty(),
            loading: None,
            loaded: None,
            ..self
        }
    }

    /// What becomes of a player whose worker takes the oldest command, and what the worker
    /// has to do.
    pub open spec fn taken(self) -> (PlayerView, PlayerActionView) {
        let rest = PlayerView { commands: self.commands.skip(1), loaded: None, ..self };
        match self.commands[0] {
            CommandView::Play { key, path } => (
                PlayerView { loading: Some(key), ..rest },
                PlayerActionView::Load { stop_first: self.loaded is Some, key, path },
            ),
            CommandView::Stop => (
                PlayerView { current: None, ..rest },
                PlayerActionView::Halt { stop_first: self.loaded is Some },
            ),
        }
    }

    /// What becomes of a player when something happens to its worker, and what the worker
    /// has to do. A clip that was loaded is shown, unless there are commands that it has not
    /// come to yet.
    pub open spec fn worked(self, event: PlayerEvent) -> (PlayerView, PlayerActionView) {
        match event {
            PlayerEvent::OutputFailed => (self.ended(), PlayerActionView::Exit),
            PlayerEvent::Disconnected => if self.commands.len() > 0 {
                self.taken()
            } else {
                (self.ended(), PlayerActionView::Exit)
            },
            PlayerEvent::Loaded { ok } => (
                PlayerView {
                    loading: None,
                    loaded: if ok {
                        self.loading
                    } else {
                        None
                    },
                    current: if !ok {
                        None
                    } else if self.commands.len() == 0 {
                        self.loading
                    } else {
                        self.current
                    },
                    ..self
                },
                PlayerActionView::Wait,
            ),
            PlayerEvent::Woken { run_out } => if self.commands.len() > 0 {
                self.taken()
            } else if self.loaded is Some && run_out {
                (
                    PlayerView { loaded: None, current: None, ..self },
                    PlayerActionView::Discard,
                )
            } else {
                (self, PlayerActionView::Wait)
            },
        }
    }
}

/// Shows nothing as playing.
pub fn clear(current: &mut Option<String>)
    ensures
        *final(current) is None,
{
    *current = None;
}

impl Player {
    /// A player that plays nothing.
    pub fn new() -> (player: Self)
        ensures
            player@ == PlayerView::fresh(),
    {
        let player = Player {
            commands: VecDeque::new(),
            connected: true,
            current: None,
            loading: None,
            loaded: None,
        };
        assert(player@ =~= PlayerView::fresh());
        player
    }

    fn send(&mut self, command: Command)
        ensures
            final(self)@ == old(self)@.sent(command@),
    {
        if self.connected {
            self.commands.push_back(command);
        }
        assert(self@ =~= old(self)@.sent(command@));
    }

    /// Starts playing the clip at `path`, in place of anything that plays already.
    pub fn play(&mut self, key: String, path: String)
        ensures
            final(self)@ == old(self)@.playing(key@, path@),
    {
        if self.connected {
            self.current = Some(key.clone());
        } else {
            clear(&mut self.current);
        }
        self.send(Command::Play { key, path });
    }

    /// Stops playing.
    pub fn stop(&mut self)
        ensures
            final(self)@ == old(self)@.stopped(),
    {
        clear(&mut self.current);
        self.send(Command::Stop);
    }

    /// The clip that is shown as playing, if there is one.
    pub fn now_playing(&self) -> (key: Option<String>)
        ensures
            optional_text(key) == self@.shown(),
    {
        if !self.connected {
            return None;
        }
        match &self.current {
            Some(key) => Some(key.clone()),
            None => None,
        }
    }

    /// Whether a command is on its way to the worker.
    pub fn has_command(&self) -> (yes: bool)
        ensures
            yes == (self@.commands.len() > 0),
    {
        self.commands.len() > 0
    }

    /// Ends the worker.
    fn end(&mut self)
        ensures
            final(self)@ == old(self)@.ended(),
    {
        self.connected = false;
        self.commands.clear();
        self.loading = None;
        self.loaded = None;
        assert(self@ =~= old(self)@.ended());
    }

    /// Takes the oldest command, if there is one, and tells what the worker has to do.
    fn take_command(&mut self) -> (action: Option<PlayerAction>)
        ensures
            old(self)@.commands.len() == 0 ==> action is None && final(self)@ == old(self)@,
            old(self)@.commands.len() > 0 ==> {
                &&& action is Some
                &&& final(self)@ == old(self)@.taken().0
                &&& action->0@ == old(self)@.taken().1
            },
    {
        let stop_first = self.loaded.is_some();
        match self.commands.pop_front() {
            Some(Command::Play { key, path }) => {
                self.loading = Some(key.clone());
                self.loaded = None;
                assert(self@ =~= old(self)@.taken().0);
                Some(PlayerAction::Load { stop_first, key, path })
            },
            Some(Command::Stop) => {
                self.loaded = None;
                clear(&mut self.current);
                assert(self@ =~= old(self)@.taken().0);
                Some(PlayerAction::Halt { stop_first })
            },
            None => {
                assert(self@ =~= old(self)@);
                None
            },
        }
    }

    /// Tells what the worker has to do about something that happened to it.
    pub fn run_player(&mut self, event: PlayerEvent) -> (action: PlayerAction)
        ensures
            final(self)@ == old(self)@.worked(event).0,
            action@ == old(self)@.worked(event).1,
    {
        match event {
            PlayerEvent::OutputFailed => {
                self.end();
                PlayerAction::Exit
            },
            PlayerEvent::Disconnected => {
                if let Some(action) = self.take_command() {
                    return action;
                }
                self.end();
                PlayerAction::Exit
            },
            PlayerEvent::Loaded { ok } => {
                let key = self.loading.take();
                if !ok {
                    self.loaded = None;
                    clear(&mut self.current);
                } else {
                    if self.commands.len() == 0 {
                        self.current = match &key {
                            Some(k) => Some(k.clone()),
                            None => None,
                        };
                    }
                    self.loaded = key;
                }
                assert(self@ =~= old(self)@.worked(event).0);
                PlayerAction::Wait
            },
            PlayerEvent::Woken { run_out } => {
                if let Some(action) = self.take_command() {
                    return action;
                }
                if self.loaded.is_some() && run_out {
                    self.loaded = None;
                    clear(&mut self.current);
                    assert(self@ =~= old(self)@.worked(event).0);
                    PlayerAction::Discard
                } else {
                    PlayerAction::Wait
                }
            },
        }
    }
}

impl Default for Player {
    fn default() -> (player: Self)
        ensures
            player@ == PlayerView::fresh(),
    {
        Player::new()
    }
}

// ---------------------------------------------------------------------------
// Laws
// ---------------------------------------------------------------------------

impl PlayerView {
    /// Whether what is shown as playing is what the worker plays, once the worker has caught
    /// up with its commands, and nothing plays without a worker.
    pub open spec fn shows_what_plays(self) -> bool {
        &&& self.commands.len() == 0 && self.loading is None ==> self.shown() == self.loaded
        &&& !self.connected ==> self.commands.len() == 0 && self.loading is None
            && self.loaded is None
    }

    /// Whether something can happen to the worker now: a clip is reported on exactly while
    /// it is being loaded, and nothing happens to a worker that has ended.
    pub open spec fn can_happen(self, event: PlayerEvent) -> bool {
        self.connected && (event is Loaded <==> self.loading is Some)
    }

    /// The clip that is being loaded, if there is one, can be loaded or cannot.
    pub open spec fn settled(self, ok: bool) -> PlayerView {
        if self.loading is Some {
            self.worked(PlayerEvent::Loaded { ok }).0
        } else {
            self
        }
    }

    /// The worker takes all commands that were sent, the files at some paths being sound
    /// files and the others not.
    pub open spec fn caught_up(self, decodes: spec_fn(Seq<char>) -> bool) -> PlayerView
        decreases self.commands.len(),
    {
        if self.commands.len() == 0 {
            self
        } else {
            let taken = self.taken().0;
            match self.commands[0] {
                CommandView::Play { key, path } => taken.settled(decodes(path)).caught_up(decodes),
                CommandView::Stop => taken.caught_up(decodes),
            }
        }
    }
}

/// Whatever is asked of a player and whatever happens to its worker, a clip is shown as
/// playing exactly where it plays, as soon as the worker has caught up with its commands.
/// Without an audio output nothing is shown.
pub proof fn players_show_what_plays(
    player: PlayerView,
    key: Seq<char>,
    path: Seq<char>,
    event: PlayerEvent,
)
    requires
        player.shows_what_plays(),
        player.can_happen(event),
    ensures
        PlayerView::fresh().shows_what_plays(),
        player.playing(key, path).shows_what_plays(),
        player.stopped().shows_what_plays(),
        player.worked(event).0.shows_what_plays(),
        player.worked(PlayerEvent::OutputFailed).0.shown() is None,
        player.worked(PlayerEvent::OutputFailed).0.playing(key, path).shown() is None,
        player.worked(PlayerEvent::OutputFailed).0.playing(key, path).shows_what_plays(),
{
}

/// Once the worker has caught up, it has done what it was asked to do last.
proof fn lemma_caught_up(player: PlayerView, decodes: spec_fn(Seq<char>) -> bool)
    requires
        player.connected,
        player.loading is None,
        player.commands.len() > 0,
    ensures
        ({
            let done = player.caught_up(decodes);
            &&& done.connected
            &&& done.loading is None
            &&& done.commands.len() == 0
            &&& done.shown() == done.loaded
            &&& done.loaded == match player.commands.last() {
                CommandView::Play { key, path } => if decodes(path) {
                    Some(key)
                } else {
                    None
                },
                CommandView::Stop => None,
            }
        }),
    decreases player.commands.len(),
{
    let taken = player.taken().0;
    let next = match player.commands[0] {
        CommandView::Play { key, path } => taken.settled(decodes(path)),
        CommandView::Stop => taken,
    };
    if next.commands.len() > 0 {
        assert(next.commands.last() == player.commands.last());
        lemma_caught_up(next, decodes);
    }
    assert(player.caught_up(decodes) == next.caught_up(decodes));
}

/// A clip whose file is a sound file is shown as playing from when it is asked for last,
/// whatever was asked for before and is still waiting: once the worker has come to it, it
/// plays and is shown, it stays shown while it plays, and it is not shown any more when it
/// has run out.
pub proof fn a_clip_is_shown_while_it_plays(
    player: PlayerView,
    key: Seq<char>,
    path: Seq<char>,
    ok: bool,
    decodes: spec_fn(Seq<char>) -> bool,
)
    requires
        player.connected,
        decodes(path),
    ensures
        player.playing(key, path).shown() == Some(key),
        ({
            let done = player.playing(key, path).settled(ok).caught_up(decodes);
            let (later, wait) = done.worked(PlayerEvent::Woken { run_out: false });
            let (over, discard) = done.worked(PlayerEvent::Woken { run_out: true });
            &&& done.loaded == Some(key)
            &&& done.shown() == Some(key)
            &&& done.commands.len() == 0
            &&& later == done
            &&& wait == PlayerActionView::Wait
            &&& over.loaded is None
            &&& over.shown() is None
            &&& discard == PlayerActionView::Discard
        }),
{
    let asked = player.playing(key, path).settled(ok);
    assert(asked.commands.last() == CommandView::Play { key, path });
    lemma_caught_up(asked, decodes);
}

/// Whatever was asked for before and is still waiting, after stopping nothing is shown, and
/// once the worker has come to it nothing plays.
pub proof fn a_stopped_player_is_silent(
    player: PlayerView,
    ok: bool,
    decodes: spec_fn(Seq<char>) -> bool,
)
    requires
        player.connected,
    ensures
        player.stopped().shown() is None,
        ({
            let done = player.stopped().settled(ok).caught_up(decodes);
            &&& done.loaded is None
            &&& done.shown() is None
            &&& done.commands.len() == 0
        }),
{
    let asked = player.stopped().settled(ok);
    assert(asked.commands.last() == CommandView::Stop);
    lemma_caught_up(asked, decodes);
}

/// A clip that cannot be loaded is not shown, and a clip that is loaded is shown unless
/// something else was asked for meanwhile.
pub proof fn loading_decides_what_is_shown(player: PlayerView)
    requires
        player.connected,
    ensures
        player.worked(PlayerEvent::Loaded { ok: false }).0.shown() is None,
        player.worked(PlayerEvent::Loaded { ok: true }).0.shown() == if player.commands.len()
            == 0 {
            player.loading
        } else {
            player.current
        },
{
}

/// A clip replaces the one that plays: the worker stops that one first, and once it has
/// loaded the new clip this is what plays and is shown.
pub proof fn a_clip_replaces_the_one_before(player: PlayerView, key: Seq<char>, path: Seq<char>)
    requires
        player.connected,
        player.commands.len() == 0,
    ensures
        ({
            let asked = player.playing(key, path);
            let (taken, action) = asked.worked(PlayerEvent::Woken { run_out: false });
            let (done, _) = taken.worked(PlayerEvent::Loaded { ok: true });
            &&& action == PlayerActionView::Load { stop_first: player.loaded is Some, key, path }
            &&& done.loaded == Some(key)
            &&& done.shown() == Some(key)
            &&& done.commands.len() == 0
        }),
{
}

/// Stopping halts what plays: the worker stops the clip that plays, if one does, and
/// afterwards nothing plays and nothing is shown.
pub proof fn stopping_halts_what_plays(player: PlayerView, run_out: bool)
    requires
        player.connected,
        player.commands.len() == 0,
    ensures
        ({
            let (done, action) = player.stopped().worked(PlayerEvent::Woken { run_out });
            &&& action == PlayerActionView::Halt { stop_first: player.loaded is Some }
            &&& done.loaded is None
            &&& done.shown() is None
            &&& done.commands.len() == 0
        }),
{
}

/// The worker takes commands in the order in which they were sent.
pub proof fn commands_are_taken_in_order(player: PlayerView, command: CommandView, run_out: bool)
    requires
        player.connected,
        player.commands.len() > 0,
    ensures
        player.sent(command).worked(PlayerEvent::Woken { run_out }).1 == player.worked(
            PlayerEvent::Woken { run_out },
        ).1,
        player.sent(command).worked(PlayerEvent::Woken { run_out }).0.commands == player.worked(
            PlayerEvent::Woken { run_out },
        ).0.commands.push(command),
{
    assert(player.commands.push(command).skip(1) =~= player.commands.skip(1).push(command));
}

/// The worker ends only after it has taken every command that was sent: while one waits it
/// takes that, as if more could still come. Without an audio output it ends at once and
/// takes none.
pub proof fn commands_are_taken_before_the_end(player: PlayerView, run_out: bool)
    ensures
        player.commands.len() > 0 ==> {
            &&& player.worked(PlayerEvent::Disconnected) == player.worked(
                PlayerEvent::Woken { run_out },
            )
            &&& !(player.worked(PlayerEvent::Disconnected).1 is Exit)
            &&& player.worked(PlayerEvent::Disconnected).0.commands == player.commands.skip(1)
        },
        player.commands.len() == 0 ==> player.worked(PlayerEvent::Disconnected).1
            == PlayerActionView::Exit,
        player.worked(PlayerEvent::OutputFailed).1 == PlayerActionView::Exit,
        player.worked(PlayerEvent::OutputFailed).0.current == player.current,
{
}

/// What is asked of a player with a worker is sent to it as it was asked, behind what was
/// sent before, and nothing of what the worker has changes.
pub proof fn what_is_asked_is_sent(player: PlayerView, key: Seq<char>, path: Seq<char>)
    ensures
        player.connected ==> player.playing(key, path) == (PlayerView {
            current: Some(key),
            commands: player.commands.push(CommandView::Play { key, path }),
            ..player
        }),
        player.connected ==> player.stopped() == (PlayerView {
            current: None,
            commands: player.commands.push(CommandView::Stop),
            ..player
        }),
        !player.connected ==> player.playing(key, path) == (PlayerView {
            current: None,
            ..player
        }),
        !player.connected ==> player.stopped() == (PlayerView { current: None, ..player }),
{
}

/// The worker does what the oldest command says: it loads that command's clip, or halts, and
/// stops a clip that plays before.
pub proof fn the_oldest_command_is_done(player: PlayerView, run_out: bool)
    requires
        player.commands.len() > 0,
    ensures
        ({
            let (after, action) = player.worked(PlayerEvent::Woken { run_out });
            &&& after.commands == player.commands.skip(1)
            &&& after.connected == player.connected
            &&& after.loaded is None
            &&& match player.commands[0] {
                CommandView::Play { key, path } => {
                    &&& after.loading == Some(key)
                    &&& after.current == player.current
                    &&& action == PlayerActionView::Load {
                        stop_first: player.loaded is Some,
                        key,
                        path,
                    }
                },
                CommandView::Stop => {
                    &&& after.loading == player.loading
                    &&& after.current is None
                    &&& action == PlayerActionView::Halt { stop_first: player.loaded is Some }
                },
            }
        }),
{
}

/// A new player has a worker and nothing to do.
pub proof fn a_new_player_is_silent()
    ensures
        PlayerView::fresh().connected,
        PlayerView::fresh().commands.len() == 0,
        PlayerView::fresh().shown() is None,
        PlayerView::fresh().loading is None,
        PlayerView::fresh().loaded is None,
{
}

/// Only a player with a worker shows a clip, and then the one that it means to.
pub proof fn a_clip_is_shown_with_a_worker_only(player: PlayerView)
    ensures
        player.connected ==> player.shown() == player.current,
        !player.connected ==> player.shown() is None,
{
}

/// Commands are seen one by one, in order.
pub proof fn commands_are_seen_one_by_one(commands: Seq<Command>)
    ensures
        command_views(commands).len() == commands.len(),
        forall|i: int|
            0 <= i < commands.len() ==> #[trigger] command_views(commands)[i] == commands[i]@,
{
}

} // verus!
