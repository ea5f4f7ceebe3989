//! Which relays to connect to.

use vstd::prelude::*;
use vstd::utf8::encode_utf8;

use crate::text::{decimal, decimal_text, join_text};

verus! {

/// How long fetching the list of relays may take.
pub const FETCH_TIMEOUT_MS: u32 = 10000;

/// The longest list of relays, in bytes, that is read.
pub const MAX_RELAY_LIST_BYTES: usize = 262144;

/// The relays to connect to, or why there are none.
pub open spec fn resolved_relays(
    configured: Seq<String>,
    listed: Option<Result<Seq<String>, String>>,
) -> Result<Seq<String>, String> {
    match listed {
        None => Ok(configured),
        Some(Ok(list)) => Ok(configured + list),
        Some(Err(reason)) => if configured.len() == 0 {
            Err(reason)
        } else {
            Ok(configured)
        },
    }
}

/// The configured relays and then the listed ones. A list that could not be had
/// matters only where no relay is configured.
pub fn resolve_relays(configured: Vec<String>, listed: Option<Result<Vec<String>, String>>) -> (relays:
    Result<Vec<String>, String>)
    ensures
        match listed {
            None => relays is Ok && relays->Ok_0@ == configured@,
            Some(Ok(list)) => relays is Ok && relays->Ok_0@ == configured@ + list@,
            Some(Err(reason)) => if configured@.len() == 0 {
                relays is Err && relays->Err_0 == reason
            } else {
                relays is Ok && relays->Ok_0@ == configured@
            },
        },
        match resolved_relays(
            configured@,
            match listed {
                None => None,
                Some(Ok(list)) => Some(Ok(list@)),
                Some(Err(reason)) => Some(Err(reason)),
            },
        ) {
            Ok(all) => relays is Ok && relays->Ok_0@ == all,
            Err(reason) => relays is Err && relays->Err_0 == reason,
        },
{
    let mut relays = configured;
    match listed {
        None => Ok(relays),
        Some(Ok(list)) => {
            let mut list = list;
            relays.append(&mut list);
            Ok(relays)
        },
        Some(Err(reason)) => {
            if relays.len() == 0 {
                Err(reason)
            } else {
                Ok(relays)
            }
        },
    }
}

/// What fetching the list of relays brought.
#[derive(Debug)]
pub enum FetchedList {
    NoWindow,
    TimedOut,
    Status(u16),
    NotText,
    Text(String),
}

/// The text of a fetched list of relays, or why it cannot be used.
pub open spec fn usable_list(fetched: FetchedList) -> Result<Seq<char>, Seq<char>> {
    match fetched {
        FetchedList::NoWindow => Err("WasmNostrSignaler: window is unavailable"@),
        FetchedList::TimedOut => Err("WasmNostrSignaler: relay list fetch timed out"@),
        FetchedList::Status(status) => Err(
            "WasmNostrSignaler: relay list fetch failed with status "@ + decimal_text(
                status as nat,
            ),
        ),
        FetchedList::NotText => Err("WasmNostrSignaler: relay list response is not text"@),
        FetchedList::Text(text) => if encode_utf8(text@).len() > MAX_RELAY_LIST_BYTES {
            Err("WasmNostrSignaler: relay list response is too large"@)
        } else {
            Ok(text@)
        },
    }
}

/// The text of a fetched list of relays, if it can be used.
pub fn checked_relay_list(fetched: FetchedList) -> (list: Result<String, String>)
    ensures
        match fetched {
            FetchedList::NoWindow => list is Err && list->Err_0@
                == "WasmNostrSignaler: window is unavailable"@,
            FetchedList::TimedOut => list is Err && list->Err_0@
                == "WasmNostrSignaler: relay list fetch timed out"@,
            FetchedList::Status(status) => list is Err && list->Err_0@
                == "WasmNostrSignaler: relay list fetch failed with status "@
                + decimal_text(status as nat),
            FetchedList::NotText => list is Err && list->Err_0@
                == "WasmNostrSignaler: relay list response is not text"@,
            FetchedList::Text(text) => if encode_utf8(text@).len()
                > MAX_RELAY_LIST_BYTES {
                list is Err && list->Err_0@
                    == "WasmNostrSignaler: relay list response is too large"@
            } else {
                list is Ok && list->Ok_0 == text
            },
        },
        match usable_list(fetched) {
            Ok(text) => list is Ok && list->Ok_0@ == text,
            Err(reason) => list is Err && list->Err_0@ == reason,
        },
{
    match fetched {
        FetchedList::NoWindow => Err("WasmNostrSignaler: window is unavailable".to_string()),
        FetchedList::TimedOut => Err(
            "WasmNostrSignaler: relay list fetch timed out".to_string(),
        ),
        FetchedList::Status(status) => {
            let number = decimal(status as u64);
            Err(
                join_text(
                    "WasmNostrSignaler: relay list fetch failed with status ",
                    number.as_str(),
                ),
            )
        },
        FetchedList::NotText => Err(
            "WasmNostrSignaler: relay list response is not text".to_string(),
        ),
        FetchedList::Text(text) => {
            if text.as_str().as_bytes().len() > MAX_RELAY_LIST_BYTES {
                Err("WasmNostrSignaler: relay list response is too large".to_string())
            } else {
                Ok(text)
            }
        },
    }
}

/// No configured relay is ever lost: they come first and in order, whatever came
/// of the list, and the listed ones follow. There is an error only where nothing
/// is configured and the list could not be had.
pub proof fn lemma_configured_relays_come_first(
    configured: Seq<String>,
    list: Seq<String>,
    reason: String,
    i: int,
)
    ensures
        resolved_relays(configured, None) == Ok::<Seq<String>, String>(configured),
        ({
            let both = resolved_relays(configured, Some(Ok(list)));
            &&& both is Ok
            &&& both->Ok_0.len() == configured.len() + list.len()
            &&& 0 <= i < configured.len() ==> both->Ok_0[i] == configured[i]
            &&& 0 <= i < list.len() ==> both->Ok_0[configured.len() + i] == list[i]
        }),
        configured.len() > 0 ==> resolved_relays(configured, Some(Err(reason))) == Ok::<
            Seq<String>,
            String,
        >(configured),
        configured.len() == 0 ==> resolved_relays(configured, Some(Err(reason))) == Err::<
            Seq<String>,
            String,
        >(reason),
{
}

/// A list is used exactly if it is a text of at most 262144 bytes, and then as
/// it is; a failed request is reported with its status.
pub proof fn lemma_only_short_lists_are_used(fetched: FetchedList)
    ensures
        usable_list(fetched) is Ok <==> fetched is Text && encode_utf8(
            fetched->Text_0@,
        ).len() <= 262144,
        usable_list(fetched) is Ok ==> usable_list(fetched)->Ok_0 == fetched->Text_0@,
        fetched matches FetchedList::Status(status) ==> usable_list(fetched)->Err_0
            == "WasmNostrSignaler: relay list fetch failed with status "@ + decimal_text(
            status as nat,
        ),
        fetched is NoWindow ==> usable_list(fetched)->Err_0
            == "WasmNostrSignaler: window is unavailable"@,
        fetched is TimedOut ==> usable_list(fetched)->Err_0
            == "WasmNostrSignaler: relay list fetch timed out"@,
        fetched is NotText ==> usable_list(fetched)->Err_0
            == "WasmNostrSignaler: relay list response is not text"@,
        fetched is Text && encode_utf8(fetched->Text_0@).len() > 262144 ==> usable_list(
            fetched,
        )->Err_0 == "WasmNostrSignaler: relay list response is too large"@,
{
}

} // verus!
