//! Notifier construction from validated settings.
//!
//! The notifier is the pluggable sink an alert is delivered to. It is chosen
//! once, at startup, from the settings: a closed set of kinds — a webhook,
//! or a no-op sink for testing and disabled alerting. Bad settings are a
//! construction error, so no notifier-construction error can occur after
//! startup. The delivery itself is I/O and lives outside this crate; the
//! dispatcher asks `plan_notification` what one alert's delivery owes.

use vstd::prelude::*;

verus! {

/// Webhook delivery settings: the request's URL, method and headers.
pub struct WebhookSettings {
    pub url: String,
    pub method: String,
    pub headers: Option<Vec<(String, String)>>,
}

/// Process settings: which notifier kind to build, and the webhook settings
/// when that kind needs them.
pub struct Settings {
    pub notifier_type: String,
    pub webhook: Option<WebhookSettings>,
}

/// A constructed notifier: the closed set of sinks an alert can go to.
pub enum Notifier {
    /// Always succeeds, performs no I/O.
    NoOp,
    /// Delivers each alert by an HTTP request built from these parts.
    Webhook { url: String, method: String, headers: Vec<(String, String)> },
}

/// Why a notifier could not be built. Construction errors are fatal at
/// startup.
pub enum ConfigError {
    /// The settings named the webhook kind but held no webhook settings.
    MissingWebhookSettings,
    /// The settings named a notifier kind that does not exist; the field
    /// holds the unrecognized name.
    UnsupportedNotifier(String),
}

impl ConfigError {
    /// A fixed description of the error kind.
    pub fn message(&self) -> (m: &'static str)
        ensures
            self is MissingWebhookSettings ==> m@ == "no webhook settings found"@,
            self is UnsupportedNotifier ==> m@ == "unsupported notifier"@,
    {
        match self {
            ConfigError::MissingWebhookSettings => "no webhook settings found",
            ConfigError::UnsupportedNotifier(_) => "unsupported notifier",
        }
    }
}

/// The header list the webhook settings ask for: the given pairs, or none.
pub open spec fn webhook_headers(wh: WebhookSettings) -> Seq<(String, String)> {
    match wh.headers {
        Some(h) => h@,
        None => Seq::empty(),
    }
}

/// A copy of a list of header pairs.
fn clone_pairs(v: &Vec<(String, String)>) -> (r: Vec<(String, String)>)
    ensures
        r@ == v@,
{
    let mut out: Vec<(String, String)> = Vec::new();
    let mut i: usize = 0;
    while i < v.len()
        invariant
            i <= v@.len(),
            out@ == v@.subrange(0, i as int),
        decreases v@.len() - i,
    {
        let name = v[i].0.clone();
        let value = v[i].1.clone();
        out.push((name, value));
        proof {
            assert(out@ =~= v@.subrange(0, i as int + 1));
        }
        i = i + 1;
    }
    proof {
        assert(out@ =~= v@);
    }
    out
}

/// The header list the webhook settings ask for, as a fresh vector.
fn clone_headers(h: &Option<Vec<(String, String)>>) -> (r: Vec<(String, String)>)
    ensures
        r@ == match *h {
            Some(v) => v@,
            None => Seq::<(String, String)>::empty(),
        },
{
    match h {
        Some(v) => clone_pairs(v),
        None => {
            let out: Vec<(String, String)> = Vec::new();
            proof {
                assert(out@ =~= Seq::<(String, String)>::empty());
            }
            out
        },
    }
}

/// Builds the notifier the settings name. The webhook kind takes its URL,
/// method and headers (none given means no headers) from the webhook
/// settings, and is a construction error without them; the no-op kind needs
/// nothing; any other kind is a construction error naming the unrecognized
/// kind.
pub fn build_notifier(cfg: &Settings) -> (r: Result<Notifier, ConfigError>)
    ensures
        match r {
            Ok(n) => match n {
                Notifier::NoOp => cfg.notifier_type@ == "noop"@,
                Notifier::Webhook { url, method, headers } => {
                    &&& cfg.notifier_type@ == "webhook"@
                    &&& cfg.webhook is Some
                    &&& url@ == cfg.webhook->Some_0.url@
                    &&& method@ == cfg.webhook->Some_0.method@
                    &&& headers@ == webhook_headers(cfg.webhook->Some_0)
                },
            },
            Err(e) => match e {
                ConfigError::MissingWebhookSettings => cfg.notifier_type@ == "webhook"@
                    && cfg.webhook is None,
                ConfigError::UnsupportedNotifier(t) => t@ == cfg.notifier_type@
                    && cfg.notifier_type@ != "webhook"@ && cfg.notifier_type@ != "noop"@,
            },
        },
        cfg.notifier_type@ == "noop"@ ==> r is Ok && r->Ok_0 is NoOp,
        cfg.notifier_type@ == "webhook"@ && cfg.webhook is Some ==> r is Ok && r->Ok_0 is Webhook,
        cfg.notifier_type@ == "webhook"@ && cfg.webhook is None ==> r == Err::<
            Notifier,
            ConfigError,
        >(ConfigError::MissingWebhookSettings),
        cfg.notifier_type@ != "webhook"@ && cfg.notifier_type@ != "noop"@ ==> r is Err
            && r->Err_0 is UnsupportedNotifier,
{
    proof {
        // The two kind names are distinct: their lengths differ.
        reveal_strlit("webhook");
        reveal_strlit("noop");
        assert("webhook"@.len() != "noop"@.len());
    }
    let webhook_tag: String = "webhook".to_owned();
    let noop_tag: String = "noop".to_owned();
    if cfg.notifier_type == webhook_tag {
        match &cfg.webhook {
            Some(wh) => Ok(
                Notifier::Webhook {
                    url: wh.url.clone(),
                    method: wh.method.clone(),
                    headers: clone_headers(&wh.headers),
                },
            ),
            None => Err(ConfigError::MissingWebhookSettings),
        }
    } else if cfg.notifier_type == noop_tag {
        Ok(Notifier::NoOp)
    } else {
        Err(ConfigError::UnsupportedNotifier(cfg.notifier_type.clone()))
    }
}

/// What the dispatcher must do to deliver one alert through a notifier: the
/// no-op sink succeeds on the spot; the webhook sink owes one HTTP request,
/// built from its settings, that carries the failed key.
pub enum NotifyAction {
    /// Nothing to send: the delivery already succeeded.
    Succeed,
    /// Send one HTTP request with these parts; `key` is the failed key the
    /// request must convey.
    Request { url: String, method: String, headers: Vec<(String, String)>, key: String },
}

/// The delivery owed for one alert: which action the notifier's kind calls
/// for, carrying the failed key and the webhook's settings unchanged.
pub fn plan_notification(n: &Notifier, key: String) -> (a: NotifyAction)
    ensures
        match *n {
            Notifier::NoOp => a == NotifyAction::Succeed,
            Notifier::Webhook { url, method, headers } => match a {
                NotifyAction::Request { url: u, method: m, headers: h, key: k } => u@ == url@
                    && m@ == method@ && h@ == headers@ && k@ == key@,
                NotifyAction::Succeed => false,
            },
        },
{
    match n {
        Notifier::NoOp => NotifyAction::Succeed,
        Notifier::Webhook { url, method, headers } => NotifyAction::Request {
            url: url.clone(),
            method: method.clone(),
            headers: clone_pairs(headers),
            key,
        },
    }
}

} // verus!
