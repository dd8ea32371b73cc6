use vstd::prelude::*;

verus! {

/// A request to download a file by URL.
pub struct DownloadFileParams {
    pub url: String,
    pub filename: String,
    pub language: Option<String>,
}

/// A request to save bytes that the user interface already holds.
pub struct BinaryDownloadParams {
    pub filename: String,
    pub binary: Vec<u8>,
    pub language: Option<String>,
}

/// A request to show an operating-system notification.
pub struct NotificationParams {
    pub title: String,
    pub body: String,
    pub icon: String,
}

/// The status a download reports to the user in a toast.
#[derive(Clone, Copy, Debug, PartialEq, Eq, Structural)]
pub enum MessageType {
    Start,
    Success,
    Failure,
}

/// Whether the user interface language is Chinese: a tag starting with "zh".
pub open spec fn is_chinese(language: Option<Seq<char>>) -> bool {
    match language {
        Some(tag) => tag.len() >= 2 && tag[0] == 'z' && tag[1] == 'h',
        None => false,
    }
}

/// The text of the toast for `kind`, in Chinese or in English.
pub open spec fn message_text(kind: MessageType, chinese: bool) -> Seq<char> {
    match kind {
        MessageType::Start => if chinese {
            "开始下载中~"@
        } else {
            "Start downloading~"@
        },
        MessageType::Success => if chinese {
            "下载成功，已保存到下载目录~"@
        } else {
            "Download successful, saved to download directory~"@
        },
        MessageType::Failure => if chinese {
            "下载失败，请检查你的网络连接~"@
        } else {
            "Download failed, please check your network connection~"@
        },
    }
}

/// Decides whether a language tag asks for Chinese text.
fn wants_chinese(language: &Option<String>) -> (r: bool)
    ensures
        r == is_chinese(
            match language {
                Some(tag) => Some(tag@),
                None => None,
            },
        ),
{
    match language {
        None => false,
        Some(tag) => {
            let s = tag.as_str();
            let n = s.unicode_len();
            n >= 2 && s.get_char(0) == 'z' && s.get_char(1) == 'h'
        },
    }
}

/// The localized toast text for a download status.
pub fn download_message(kind: MessageType, language: &Option<String>) -> (r: String)
    ensures
        r@ == message_text(
            kind,
            is_chinese(
                match language {
                    Some(tag) => Some(tag@),
                    None => None,
                },
            ),
        ),
{
    let chinese = wants_chinese(language);
    let text = match kind {
        MessageType::Start => if chinese {
            "开始下载中~"
        } else {
            "Start downloading~"
        },
        MessageType::Success => if chinese {
            "下载成功，已保存到下载目录~"
        } else {
            "Download successful, saved to download directory~"
        },
        MessageType::Failure => if chinese {
            "下载失败，请检查你的网络连接~"
        } else {
            "Download failed, please check your network connection~"
        },
    };
    String::from_str(text)
}

/// Where a download command stands.
#[derive(Clone, Copy, Debug, PartialEq, Eq, Structural)]
pub enum DownloadPhase {
    /// Nothing has happened yet.
    Idle,
    /// The HTTP GET has been issued; its answer is awaited.
    Fetching,
    /// The bytes are being written to the chosen path.
    Writing,
    /// The command has returned its result; later events are ignored.
    Finished,
}

/// What the outside world reports to a download command.
pub enum DownloadEvent {
    /// The command was invoked with a URL to fetch.
    StartFromUrl,
    /// The command was invoked with the bytes themselves.
    StartFromBytes,
    /// The whole response body arrived.
    Fetched,
    /// The URL was malformed, or the request failed; with the error text.
    FetchFailed(String),
    /// The file was written completely.
    Written,
    /// Creating or writing the file failed; with the error text.
    WriteFailed(String),
}

/// What a download command asks the outside world to do.
pub enum DownloadAction {
    /// Show a status toast in the window.
    ShowToast(MessageType),
    /// Issue the HTTP GET for the URL.
    Fetch,
    /// Write the bytes to the path chosen by `unused_file_name`.
    WriteFile,
    /// Return this result to the caller.
    Finish(Result<(), String>),
}

/// The next phase of a download command, and the actions it takes, when
/// `event` arrives in `phase`. An event that does not fit the phase changes
/// nothing and asks for nothing.
pub open spec fn download_step(phase: DownloadPhase, event: DownloadEvent) -> (DownloadPhase, Seq<DownloadAction>) {
    match (phase, event) {
        (DownloadPhase::Idle, DownloadEvent::StartFromUrl) => (
            DownloadPhase::Fetching,
            seq![DownloadAction::ShowToast(MessageType::Start), DownloadAction::Fetch],
        ),
        (DownloadPhase::Idle, DownloadEvent::StartFromBytes) => (
            DownloadPhase::Writing,
            seq![DownloadAction::ShowToast(MessageType::Start), DownloadAction::WriteFile],
        ),
        (DownloadPhase::Fetching, DownloadEvent::Fetched) => (
            DownloadPhase::Writing,
            seq![DownloadAction::WriteFile],
        ),
        (DownloadPhase::Fetching, DownloadEvent::FetchFailed(e)) => (
            DownloadPhase::Finished,
            seq![DownloadAction::ShowToast(MessageType::Failure), DownloadAction::Finish(Err(e))],
        ),
        (DownloadPhase::Writing, DownloadEvent::Written) => (
            DownloadPhase::Finished,
            seq![DownloadAction::ShowToast(MessageType::Success), DownloadAction::Finish(Ok(()))],
        ),
        (DownloadPhase::Writing, DownloadEvent::WriteFailed(e)) => (
            DownloadPhase::Finished,
            seq![DownloadAction::ShowToast(MessageType::Failure), DownloadAction::Finish(Err(e))],
        ),
        _ => (phase, Seq::empty()),
    }
}

/// The phase reached, and all actions taken, when `events` arrive in order
/// starting in `phase`.
pub open spec fn download_run(phase: DownloadPhase, events: Seq<DownloadEvent>) -> (DownloadPhase, Seq<DownloadAction>)
    decreases events.len(),
{
    if events.len() == 0 {
        (phase, Seq::empty())
    } else {
        let (next, first) = download_step(phase, events[0]);
        let (last, rest) = download_run(next, events.drop_first());
        (last, first + rest)
    }
}

/// How many toasts of `kind` a list of actions shows.
pub open spec fn toast_count(actions: Seq<DownloadAction>, kind: MessageType) -> nat
    decreases actions.len(),
{
    if actions.len() == 0 {
        0
    } else {
        (if actions[0] == DownloadAction::ShowToast(kind) {
            1nat
        } else {
            0nat
        }) + toast_count(actions.drop_first(), kind)
    }
}

/// Whether a list of actions writes a file.
pub open spec fn writes_file(actions: Seq<DownloadAction>) -> bool {
    exists|i: int| 0 <= i < actions.len() && #[trigger] actions[i] is WriteFile
}

/// One download command in progress.
pub struct DownloadSession {
    pub phase: DownloadPhase,
}

impl DownloadSession {
    /// A command that has not started.
    pub fn new() -> (r: DownloadSession)
        ensures
            r.phase == DownloadPhase::Idle,
    {
        DownloadSession { phase: DownloadPhase::Idle }
    }

    /// Takes in an event and returns the actions to perform, in order.
    pub fn step(&mut self, event: DownloadEvent) -> (r: Vec<DownloadAction>)
        ensures
            (final(self).phase, r@) == download_step(old(self).phase, event),
    {
        let mut actions: Vec<DownloadAction> = Vec::new();
        match (self.phase, event) {
            (DownloadPhase::Idle, DownloadEvent::StartFromUrl) => {
                actions.push(DownloadAction::ShowToast(MessageType::Start));
                actions.push(DownloadAction::Fetch);
                self.phase = DownloadPhase::Fetching;
            },
            (DownloadPhase::Idle, DownloadEvent::StartFromBytes) => {
                actions.push(DownloadAction::ShowToast(MessageType::Start));
                actions.push(DownloadAction::WriteFile);
                self.phase = DownloadPhase::Writing;
            },
            (DownloadPhase::Fetching, DownloadEvent::Fetched) => {
                actions.push(DownloadAction::WriteFile);
                self.phase = DownloadPhase::Writing;
            },
            (DownloadPhase::Fetching, DownloadEvent::FetchFailed(e)) => {
                actions.push(DownloadAction::ShowToast(MessageType::Failure));
                actions.push(DownloadAction::Finish(Err(e)));
                self.phase = DownloadPhase::Finished;
            },
            (DownloadPhase::Writing, DownloadEvent::Written) => {
                actions.push(DownloadAction::ShowToast(MessageType::Success));
                actions.push(DownloadAction::Finish(Ok(())));
                self.phase = DownloadPhase::Finished;
            },
            (DownloadPhase::Writing, DownloadEvent::WriteFailed(e)) => {
                actions.push(DownloadAction::ShowToast(MessageType::Failure));
                actions.push(DownloadAction::Finish(Err(e)));
                self.phase = DownloadPhase::Finished;
            },
            _ => {},
        }
        proof {
            assert(actions@ =~= download_step(old(self).phase, event).1);
        }
        actions
    }
}

proof fn lemma_finished_is_quiet(events: Seq<DownloadEvent>)
    ensures
        download_run(DownloadPhase::Finished, events) == (DownloadPhase::Finished, Seq::<DownloadAction>::empty()),
    decreases events.len(),
{
    if events.len() > 0 {
        lemma_finished_is_quiet(events.drop_first());
        assert(Seq::<DownloadAction>::empty() + Seq::<DownloadAction>::empty() =~= Seq::<DownloadAction>::empty());
    }
}

/// A download by URL whose fetch fails (an unreachable or malformed URL)
/// returns that error, shows exactly one failure toast, and never writes a
/// file, whatever events arrive afterwards.
pub proof fn lemma_failed_fetch(error: String, later: Seq<DownloadEvent>)
    ensures
        ({
            let events = seq![DownloadEvent::StartFromUrl, DownloadEvent::FetchFailed(error)] + later;
            let (phase, actions) = download_run(DownloadPhase::Idle, events);
            &&& phase == DownloadPhase::Finished
            &&& toast_count(actions, MessageType::Failure) == 1
            &&& !writes_file(actions)
            &&& actions.last() == DownloadAction::Finish(Err(error))
        }),
{
    let events = seq![DownloadEvent::StartFromUrl, DownloadEvent::FetchFailed(error)] + later;
    lemma_finished_is_quiet(later);
    assert(events[0] == DownloadEvent::StartFromUrl);
    assert(events.drop_first()[0] == DownloadEvent::FetchFailed(error));
    assert(events.drop_first().drop_first() =~= later);
    let a = seq![DownloadAction::ShowToast(MessageType::Failure), DownloadAction::Finish(Err(error))];
    let b = seq![DownloadAction::ShowToast(MessageType::Start), DownloadAction::Fetch];
    let e1 = events.drop_first();
    assert(download_step(DownloadPhase::Fetching, e1[0]) == (DownloadPhase::Finished, a));
    assert(download_run(DownloadPhase::Fetching, e1) == (
        DownloadPhase::Finished,
        a + Seq::<DownloadAction>::empty(),
    ));
    assert(download_step(DownloadPhase::Idle, events[0]) == (DownloadPhase::Fetching, b));
    assert(download_run(DownloadPhase::Idle, events) == (
        DownloadPhase::Finished,
        b + (a + Seq::<DownloadAction>::empty()),
    ));
    let actions = b + (a + Seq::<DownloadAction>::empty());
    assert(actions =~= seq![
        DownloadAction::ShowToast(MessageType::Start),
        DownloadAction::Fetch,
        DownloadAction::ShowToast(MessageType::Failure),
        DownloadAction::Finish(Err(error)),
    ]);
    reveal_with_fuel(toast_count, 5);
    assert(actions.drop_first().drop_first().drop_first().drop_first() =~= Seq::<DownloadAction>::empty());
    assert(toast_count(actions, MessageType::Failure) == 1);
}

} // verus!
