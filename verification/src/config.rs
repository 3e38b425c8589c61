//! What the subscriber program is asked to do, and how it goes from one relay to the next.
use crate::message::subscribe::SubscribePair;
use crate::multipath::playout::SubscriberParams;
use crate::multipath::skip::FailoverMethod;
use crate::multipath::skip::SkipMode;
use vstd::prelude::*;

verus! {

/// The bandwidth of a path for which no hint is given, in bits per second.
pub const DEFAULT_BANDWIDTH_HINT: u64 = 2_000_000;

/// The unit of a skip.
#[derive(Clone, Copy, Debug, PartialEq, Eq, Structural)]
pub enum SkipUnit {
    /// Skip ahead so many objects within the current group.
    Object,
    /// Skip ahead so many groups.
    Group,
}

impl Default for SkipUnit {
    fn default() -> (res: SkipUnit)
        ensures
            res == SkipUnit::Group,
    {
        SkipUnit::Group
    }
}

/// The failover method that is asked for. Where the skip is to be adaptive, its unit and its number
/// are ignored. A skip of 0 is none.
pub open spec fn asked_method(
    adaptive_skip: bool,
    skip_ahead: u64,
    skip_unit: SkipUnit,
) -> FailoverMethod {
    if adaptive_skip {
        FailoverMethod::DynamicAdaptive
    } else if skip_ahead == 0 {
        FailoverMethod::Static(SkipMode::Disabled)
    } else {
        FailoverMethod::Static(
            match skip_unit {
                SkipUnit::Object => SkipMode::SameGroupNextObject(skip_ahead),
                SkipUnit::Group => SkipMode::NextGroupFirstObject(skip_ahead),
            },
        )
    }
}

/// The failover method that is asked for.
pub fn failover_method(
    adaptive_skip: bool,
    skip_ahead: u64,
    skip_unit: SkipUnit,
) -> (res: FailoverMethod)
    ensures
        res == asked_method(adaptive_skip, skip_ahead, skip_unit),
{
    if adaptive_skip {
        FailoverMethod::DynamicAdaptive
    } else {
        let skip_mode: SkipMode = if skip_ahead == 0 {
            SkipMode::Disabled
        } else {
            match skip_unit {
                SkipUnit::Object => SkipMode::SameGroupNextObject(skip_ahead),
                SkipUnit::Group => SkipMode::NextGroupFirstObject(skip_ahead),
            }
        };
        FailoverMethod::Static(skip_mode)
    }
}

/// A fixed skip that is asked for leads to a later location.
pub proof fn asked_skip_leads_ahead(
    skip_ahead: u64,
    skip_unit: SkipUnit,
    mode: SkipMode,
    current: SubscribePair,
)
    requires
        skip_ahead > 0,
        asked_method(false, skip_ahead, skip_unit) == FailoverMethod::Static(mode),
        mode.fits(current),
    ensures
        mode.target(current) matches Some(next) && current.before(next),
{
}

/// How the subscriber of the relay at an index wants to be kept up to date.
pub fn subscriber_params(
    failover_method: FailoverMethod,
    bandwidth_hints: &Vec<u64>,
    i: usize,
) -> (res: SubscriberParams)
    ensures
        res.failover_method == failover_method,
        res.bandwidth_hint == if i < bandwidth_hints@.len() {
            bandwidth_hints@[i as int]
        } else {
            DEFAULT_BANDWIDTH_HINT
        },
{
    let bandwidth_hint: u64 = if i < bandwidth_hints.len() {
        bandwidth_hints[i]
    } else {
        DEFAULT_BANDWIDTH_HINT
    };
    SubscriberParams { failover_method, bandwidth_hint }
}

/// The number of the session with the relay at an index.
pub fn session_id(i: usize) -> (res: u64)
    requires
        i < usize::MAX,
    ensures
        res == i + 1,
{
    (i + 1) as u64
}

/// How the receiving of the media starts.
#[derive(Debug)]
pub enum InitMode {
    /// With the init track.
    InitTrack,
    /// With the track of this name.
    Direct(String),
}

/// How the receiving of the media from the relay at an index starts: the first one gives the init
/// track.
pub fn init_mode(i: usize) -> (res: InitMode)
    ensures
        i == 0 ==> res is InitTrack,
        i > 0 ==> {
            &&& res matches InitMode::Direct(name)
            &&& name@ == "1.m4s"@
        },
{
    if i == 0 {
        InitMode::InitTrack
    } else {
        InitMode::Direct(String::from_str("1.m4s"))
    }
}

/// What is done when a task has ended.
#[derive(Clone, Copy, Debug, PartialEq, Eq, Structural)]
pub enum AfterTask {
    /// Wait for the next task to end.
    Wait,
    /// Go on with the next relay.
    NextRelay,
    /// The media is complete.
    Complete,
}

/// What a task fails with once the media is complete.
pub open spec fn complete_reason() -> Seq<char> {
    "Finished receiving the media"@
}

/// What is done when a task has ended. `None` stands for a task that could not be run to its end.
/// With several paths at once, only the complete media ends the waiting; otherwise every task that
/// has been run to its end does.
pub open spec fn after_task(multipath: bool, ended: Option<Result<(), String>>) -> AfterTask {
    match ended {
        None => AfterTask::Wait,
        Some(Err(reason)) => if reason@ == complete_reason() {
            AfterTask::Complete
        } else if multipath {
            AfterTask::Wait
        } else {
            AfterTask::NextRelay
        },
        Some(Ok(_)) => if multipath {
            AfterTask::Wait
        } else {
            AfterTask::NextRelay
        },
    }
}

/// What is done when a task has ended.
pub fn task_ended(multipath: bool, ended: &Option<Result<(), String>>) -> (res: AfterTask)
    ensures
        res == after_task(multipath, *ended),
{
    let complete: String = String::from_str("Finished receiving the media");
    match ended {
        None => AfterTask::Wait,
        Some(result) => {
            if let Err(reason) = result {
                if *reason == complete {
                    return AfterTask::Complete;
                }
            }
            if multipath {
                AfterTask::Wait
            } else {
                AfterTask::NextRelay
            }
        },
    }
}

/// The URL of a relay.
#[derive(Debug)]
pub struct RelayUrl {
    pub scheme: String,
    pub text: String,
}

/// What the url crate makes of a text: the scheme and the text of the URL, or the text of the error.
pub uninterp spec fn url_parsing(text: Seq<char>) -> Result<(Seq<char>, Seq<char>), Seq<char>>;

/// What has been parsed, or the text of the error.
pub open spec fn url_view(
    parsed: Result<RelayUrl, String>,
) -> Result<(Seq<char>, Seq<char>), Seq<char>> {
    match parsed {
        Ok(url) => Ok((url.scheme@, url.text@)),
        Err(text) => Err(text@),
    }
}

/// `url::Url::try_from` of a text: the scheme and the serialization of the URL, or the text of the
/// error. It depends on the text alone.
#[verifier::external_body]
fn parse_url(s: &str) -> (res: Result<RelayUrl, String>)
    ensures
        url_view(res) == url_parsing(s@),
{
    let url = url::Url::try_from(s).map_err(|e| e.to_string())?;
    Ok(RelayUrl { scheme: url.scheme().to_string(), text: url.to_string() })
}

/// Whether a relay can be reached under a scheme: over WebTransport, or over QUIC.
pub open spec fn is_relay_scheme(scheme: Seq<char>) -> bool {
    scheme == "https"@ || scheme == "moqt"@
}

/// What is said of a URL with another scheme.
pub open spec fn scheme_reason() -> Seq<char> {
    "url scheme must be https:// for WebTransport & moqt:// for QUIC"@
}

/// What has been parsed, where a relay can be reached under its scheme.
pub open spec fn checked_url(
    parsed: Result<(Seq<char>, Seq<char>), Seq<char>>,
) -> Result<(Seq<char>, Seq<char>), Seq<char>> {
    match parsed {
        Ok(url) => if is_relay_scheme(url.0) {
            parsed
        } else {
            Err(scheme_reason())
        },
        Err(_) => parsed,
    }
}

/// What has been parsed, where a relay can be reached under its scheme.
pub fn check_scheme(parsed: Result<RelayUrl, String>) -> (res: Result<RelayUrl, String>)
    ensures
        url_view(res) == checked_url(url_view(parsed)),
{
    let url: RelayUrl = match parsed {
        Ok(url) => url,
        Err(text) => return Err(text),
    };
    let https: String = String::from_str("https");
    let moqt: String = String::from_str("moqt");
    if url.scheme != https && url.scheme != moqt {
        return Err(
            String::from_str("url scheme must be https:// for WebTransport & moqt:// for QUIC"),
        );
    }
    Ok(url)
}

/// The URL of a relay, or what is wrong with the text.
pub fn moq_url(s: &str) -> (res: Result<RelayUrl, String>)
    ensures
        url_view(res) == checked_url(url_parsing(s@)),
{
    check_scheme(parse_url(s))
}

/// An adaptive skip is adaptive whatever number and unit are given. A skip of 0 is disabled in either unit.
/// A skip of any other number is by that many objects within the group, or by that many groups.
pub proof fn method_is_the_one_asked_for(skip_ahead: u64, skip_unit: SkipUnit)
    ensures
        asked_method(true, skip_ahead, skip_unit) == FailoverMethod::DynamicAdaptive,
        skip_ahead == 0 ==> asked_method(false, skip_ahead, skip_unit) == FailoverMethod::Static(
            SkipMode::Disabled,
        ),
        skip_ahead > 0 ==> asked_method(false, skip_ahead, SkipUnit::Object)
            == FailoverMethod::Static(SkipMode::SameGroupNextObject(skip_ahead)),
        skip_ahead > 0 ==> asked_method(false, skip_ahead, SkipUnit::Group)
            == FailoverMethod::Static(SkipMode::NextGroupFirstObject(skip_ahead)),
{
}

/// A task that could not be run to its end is waited over. One that fails because the media is complete
/// ends the program. Every other one leads to the next relay, or is waited over where all relays are used
/// at once.
pub proof fn tasks_lead_on_until_the_media_is_complete(multipath: bool, reason: String)
    ensures
        after_task(multipath, None) == AfterTask::Wait,
        reason@ == "Finished receiving the media"@ ==> after_task(multipath, Some(Err(reason)))
            == AfterTask::Complete,
        reason@ != "Finished receiving the media"@ ==> after_task(true, Some(Err(reason)))
            == AfterTask::Wait,
        reason@ != "Finished receiving the media"@ ==> after_task(false, Some(Err(reason)))
            == AfterTask::NextRelay,
        after_task(true, Some(Ok(()))) == AfterTask::Wait,
        after_task(false, Some(Ok(()))) == AfterTask::NextRelay,
{
}

/// A URL is taken as it was parsed where its scheme is that of WebTransport or of QUIC. One with another
/// scheme is refused, and what is not a URL is refused with the error of parsing.
pub proof fn urls_are_taken_by_their_scheme(scheme: Seq<char>, text: Seq<char>)
    ensures
        checked_url(Ok(("https"@, text))) == Ok::<(Seq<char>, Seq<char>), Seq<char>>(
            ("https"@, text),
        ),
        checked_url(Ok(("moqt"@, text))) == Ok::<(Seq<char>, Seq<char>), Seq<char>>(
            ("moqt"@, text),
        ),
        scheme != "https"@ && scheme != "moqt"@ ==> checked_url(Ok((scheme, text))) == Err::<
            (Seq<char>, Seq<char>),
            Seq<char>,
        >("url scheme must be https:// for WebTransport & moqt:// for QUIC"@),
        checked_url(Err(text)) == Err::<(Seq<char>, Seq<char>), Seq<char>>(text),
{
}

} // verus!
