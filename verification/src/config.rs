//! Parsing the integration configuration.
//!
//! The `INTEGRATIONS` value is a comma-separated, case-insensitive list of
//! transport names; empty items (as from a trailing comma) are tolerated,
//! a repeated name counts once, and an unknown name is a fatal
//! configuration error. Telegram and Discord each require their token.

use vstd::prelude::*;

use crate::text::{chars_string, eq_lit, split_lit, split_on, str_chars};

verus! {

/// One enabled transport, with what it needs to connect.
#[derive(Debug, PartialEq)]
pub enum Integration {
    Telegram { token: String },
    Discord { token: String },
    Terminal,
}

/// The transport a configuration item names.
#[derive(Clone, Copy, Debug, PartialEq, Eq, Structural)]
pub enum IntegrationKind {
    Telegram,
    Discord,
    Terminal,
}

/// What is wrong with a configuration.
#[derive(Debug, PartialEq)]
pub enum ConfigError {
    /// An item of `INTEGRATIONS` names no known transport.
    UnknownIntegration(String),
    /// `TELEGRAM` is listed but no Telegram token was given.
    MissingTelegramToken,
    /// `DISCORD` is listed but no Discord token was given.
    MissingDiscordToken,
}

/// What the process runs with.
#[derive(Debug)]
pub struct Config {
    /// The enabled transports, each once, in first-mention order.
    pub integrations: Vec<Integration>,
    /// When set, nothing is loaded from or saved to disk.
    pub disable_saving: bool,
}

/// ASCII uppercasing, the case rule used for integration names.
pub open spec fn ascii_upper(c: char) -> char {
    if 'a' <= c <= 'z' {
        ((c as u8) - 0x20) as char
    } else {
        c
    }
}

/// A string uppercased letter by letter.
pub open spec fn upper_of(s: Seq<char>) -> Seq<char> {
    s.map_values(|c: char| ascii_upper(c))
}

/// The transport named by one (already uppercased) item.
pub open spec fn kind_of_item(item: Seq<char>) -> Option<IntegrationKind> {
    if item == "TELEGRAM"@ {
        Some(IntegrationKind::Telegram)
    } else if item == "DISCORD"@ {
        Some(IntegrationKind::Discord)
    } else if item == "TERMINAL"@ {
        Some(IntegrationKind::Terminal)
    } else {
        None
    }
}

/// What is wrong, at the specification level.
pub enum ConfigErrorModel {
    UnknownIntegration(Seq<char>),
    MissingTelegramToken,
    MissingDiscordToken,
}

/// The kinds enabled by the non-empty items, in first-mention order with
/// repeats dropped, or the first offense: an unknown name, or a name whose
/// token is absent.
pub open spec fn spec_kinds(
    items: Seq<Seq<char>>,
    have_telegram_token: bool,
    have_discord_token: bool,
) -> Result<Seq<IntegrationKind>, ConfigErrorModel>
    decreases items.len(),
{
    if items.len() == 0 {
        Ok(Seq::empty())
    } else {
        let rest = spec_kinds(items.drop_last(), have_telegram_token, have_discord_token);
        match rest {
            Err(e) => Err(e),
            Ok(kinds) => {
                let item = items.last();
                if item.len() == 0 {
                    Ok(kinds)
                } else {
                    match kind_of_item(item) {
                        None => Err(ConfigErrorModel::UnknownIntegration(item)),
                        Some(kind) => {
                            if kind == IntegrationKind::Telegram && !have_telegram_token {
                                Err(ConfigErrorModel::MissingTelegramToken)
                            } else if kind == IntegrationKind::Discord && !have_discord_token {
                                Err(ConfigErrorModel::MissingDiscordToken)
                            } else if kinds.contains(kind) {
                                Ok(kinds)
                            } else {
                                Ok(kinds.push(kind))
                            }
                        },
                    }
                }
            },
        }
    }
}

/// The items of an `INTEGRATIONS` value: comma-separated, uppercased.
pub open spec fn spec_items(raw: Seq<char>) -> Seq<Seq<char>> {
    split_on(upper_of(raw), ","@)
}

/// The kind of one built integration, and whether its token matches.
pub open spec fn integration_matches(
    built: Integration,
    kind: IntegrationKind,
    telegram_token: Option<String>,
    discord_token: Option<String>,
) -> bool {
    match built {
        Integration::Telegram { token } => kind == IntegrationKind::Telegram && (match
            telegram_token {
            Some(t) => token@ == t@,
            None => false,
        }),
        Integration::Discord { token } => kind == IntegrationKind::Discord && (match
            discord_token {
            Some(t) => token@ == t@,
            None => false,
        }),
        Integration::Terminal => kind == IntegrationKind::Terminal,
    }
}

/// Once a prefix of the items is in error, the whole list is, with the
/// same error.
proof fn lemma_kinds_err_persists(
    items: Seq<Seq<char>>,
    n: int,
    have_telegram_token: bool,
    have_discord_token: bool,
)
    requires
        0 <= n <= items.len(),
        spec_kinds(items.take(n), have_telegram_token, have_discord_token) is Err,
    ensures
        spec_kinds(items, have_telegram_token, have_discord_token) == spec_kinds(
            items.take(n),
            have_telegram_token,
            have_discord_token,
        ),
    decreases items.len() - n,
{
    if n < items.len() {
        assert(items.take(n + 1).drop_last() =~= items.take(n));
        lemma_kinds_err_persists(items, n + 1, have_telegram_token, have_discord_token);
    } else {
        assert(items.take(n) =~= items);
    }
}

/// Uppercases a string, ASCII letter by ASCII letter.
fn to_upper(s: &Vec<char>) -> (r: Vec<char>)
    ensures
        r@ == upper_of(s@),
{
    let mut r: Vec<char> = Vec::new();
    let mut i: usize = 0;
    proof {
        assert(r@ =~= upper_of(s@.take(0)));
    }
    while i < s.len()
        invariant
            i <= s@.len(),
            r@ == upper_of(s@.take(i as int)),
        decreases s@.len() - i,
    {
        let c = s[i];
        if 'a' <= c && c <= 'z' {
            let upper = ((c as u8) - 0x20) as char;
            r.push(upper);
        } else {
            r.push(c);
        }
        i = i + 1;
        proof {
            assert(r@ =~= upper_of(s@.take(i as int)));
        }
    }
    proof {
        assert(s@.take(s@.len() as int) =~= s@);
        assert(r@ =~= upper_of(s@));
    }
    r
}

/// Builds the configuration from the raw `INTEGRATIONS` value and the
/// tokens that were given. The enabled transports appear once each, in
/// first-mention order, carrying their tokens; the first unknown name or
/// missing token is the error.
pub fn parse_integrations(
    raw: &str,
    telegram_token: Option<String>,
    discord_token: Option<String>,
    disable_saving: bool,
) -> (r: Result<Config, ConfigError>)
    ensures
        ({
            let expected = spec_kinds(
                spec_items(raw@),
                telegram_token is Some,
                discord_token is Some,
            );
            match r {
                Ok(config) => {
                    &&& config.disable_saving == disable_saving
                    &&& expected is Ok
                    &&& config.integrations@.len() == expected->Ok_0.len()
                    &&& forall|k: int|
                        0 <= k < config.integrations@.len() ==> integration_matches(
                            #[trigger] config.integrations@[k],
                            expected->Ok_0[k],
                            telegram_token,
                            discord_token,
                        )
                },
                Err(e) => match (e, expected) {
                    (ConfigError::UnknownIntegration(item), Err(
                        ConfigErrorModel::UnknownIntegration(m),
                    )) => item@ == m,
                    (ConfigError::MissingTelegramToken, Err(
                        ConfigErrorModel::MissingTelegramToken,
                    )) => true,
                    (ConfigError::MissingDiscordToken, Err(
                        ConfigErrorModel::MissingDiscordToken,
                    )) => true,
                    _ => false,
                },
            }
        }),
{
    let raw_chars = str_chars(raw);
    let upper = to_upper(&raw_chars);
    proof {
        reveal_strlit(",");
    }
    let items = split_lit(&upper, ",");
    let ghost items_view = items.deep_view();
    proof {
        assert(items_view == spec_items(raw@));
    }
    let mut kinds: Vec<IntegrationKind> = Vec::new();
    let mut integrations: Vec<Integration> = Vec::new();
    let mut i: usize = 0;
    proof {
        assert(items_view.take(0) =~= Seq::<Seq<char>>::empty());
        assert(spec_kinds(items_view.take(0), telegram_token is Some, discord_token is Some)
            == Ok::<Seq<IntegrationKind>, ConfigErrorModel>(Seq::empty()));
        assert(kinds@ =~= Seq::<IntegrationKind>::empty());
    }
    while i < items.len()
        invariant
            i <= items@.len(),
            items_view == items.deep_view(),
            items_view == spec_items(raw@),
            spec_kinds(items_view.take(i as int), telegram_token is Some, discord_token is Some)
                == Ok::<Seq<IntegrationKind>, ConfigErrorModel>(kinds@),
            integrations@.len() == kinds@.len(),
            forall|k: int|
                0 <= k < integrations@.len() ==> integration_matches(
                    #[trigger] integrations@[k],
                    kinds@[k],
                    telegram_token,
                    discord_token,
                ),
        decreases items@.len() - i,
    {
        proof {
            assert(items_view.take(i + 1).drop_last() =~= items_view.take(i as int));
            assert(items_view.take(i + 1).last() == items_view[i as int]);
            assert(items_view[i as int] == items@[i as int]@) by {
                assert(items@[i as int].deep_view() =~= items@[i as int]@);
            }
        }
        let item = &items[i];
        if item.len() > 0 {
            if eq_lit(item, "TELEGRAM") {
                match &telegram_token {
                    None => {
                        proof {
                            lemma_kinds_err_persists(
                                items_view,
                                i + 1,
                                telegram_token is Some,
                                discord_token is Some,
                            );
                        }
                        return Err(ConfigError::MissingTelegramToken);
                    },
                    Some(token) => {
                        if !contains_kind(&kinds, IntegrationKind::Telegram) {
                            kinds.push(IntegrationKind::Telegram);
                            integrations.push(Integration::Telegram { token: token.clone() });
                        }
                    },
                }
            } else if eq_lit(item, "DISCORD") {
                match &discord_token {
                    None => {
                        proof {
                            lemma_kinds_err_persists(
                                items_view,
                                i + 1,
                                telegram_token is Some,
                                discord_token is Some,
                            );
                        }
                        return Err(ConfigError::MissingDiscordToken);
                    },
                    Some(token) => {
                        if !contains_kind(&kinds, IntegrationKind::Discord) {
                            kinds.push(IntegrationKind::Discord);
                            integrations.push(Integration::Discord { token: token.clone() });
                        }
                    },
                }
            } else if eq_lit(item, "TERMINAL") {
                if !contains_kind(&kinds, IntegrationKind::Terminal) {
                    kinds.push(IntegrationKind::Terminal);
                    integrations.push(Integration::Terminal);
                }
            } else {
                proof {
                    lemma_kinds_err_persists(
                        items_view,
                        i + 1,
                        telegram_token is Some,
                        discord_token is Some,
                    );
                }
                let owned = chars_string(item);
                return Err(ConfigError::UnknownIntegration(owned));
            }
        }
        i = i + 1;
    }
    proof {
        assert(items_view.take(items_view.len() as int) =~= items_view);
    }
    Ok(Config { integrations, disable_saving })
}

/// Whether `kind` was already enabled.
fn contains_kind(kinds: &Vec<IntegrationKind>, kind: IntegrationKind) -> (r: bool)
    ensures
        r == kinds@.contains(kind),
{
    let mut i: usize = 0;
    while i < kinds.len()
        invariant
            i <= kinds@.len(),
            forall|j: int| 0 <= j < i ==> kinds@[j] != kind,
        decreases kinds@.len() - i,
    {
        if kinds[i] == kind {
            proof {
                assert(kinds@.contains(kind));
            }
            return true;
        }
        i = i + 1;
    }
    proof {
        assert(!kinds@.contains(kind));
    }
    false
}

} // verus!
