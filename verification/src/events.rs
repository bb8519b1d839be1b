//! Scheduled events of a guild: who may create and manage them, and which values a
//! creation or an update accepts.
//!
//! Entity types: 1 stage, 2 voice, 3 external. Statuses: 1 scheduled, 2 active,
//! 3 completed, 4 cancelled.

use vstd::prelude::*;
use crate::error::{AppError, is_bad_request, is_forbidden};
use crate::perms::{has, has_spec, CREATE_EVENTS, MANAGE_EVENTS};
use crate::text::{char_count, trim, trim_spec};
use crate::validate::validate_event_name;

verus! {

/// Longest location of an external event, in characters.
pub const MAX_LOCATION_CHARS: usize = 1000;

/// Creating an event takes `CREATE_EVENTS` or `MANAGE_EVENTS`.
pub fn require_event_create(perms: u64) -> (r: Result<(), AppError>)
    ensures
        has_spec(perms, CREATE_EVENTS) || has_spec(perms, MANAGE_EVENTS) <==> r is Ok,
        r matches Err(e) ==> is_forbidden(e, "permissions insuffisantes"@),
{
    if has(perms, CREATE_EVENTS) || has(perms, MANAGE_EVENTS) {
        Ok(())
    } else {
        Err(AppError::forbidden("permissions insuffisantes"))
    }
}

/// Changing or deleting an event takes `MANAGE_EVENTS`, or `CREATE_EVENTS` for its creator.
pub fn require_event_manage(perms: u64, user_id: i64, creator_id: i64) -> (r: Result<(), AppError>)
    ensures
        has_spec(perms, MANAGE_EVENTS) || (user_id == creator_id && has_spec(perms, CREATE_EVENTS))
            <==> r is Ok,
        r matches Err(e) ==> is_forbidden(e, "permissions insuffisantes"@),
{
    if has(perms, MANAGE_EVENTS) || (user_id == creator_id && has(perms, CREATE_EVENTS)) {
        Ok(())
    } else {
        Err(AppError::forbidden("permissions insuffisantes"))
    }
}

/// A new event as it will be stored: its trimmed name, and its channel (stage and voice
/// events) or its location (external events).
pub struct NewEvent {
    pub name: String,
    pub channel_id: Option<i64>,
    pub location: Option<String>,
}

/// Where an event takes place, or why the request is refused (a bad-request message).
pub open spec fn event_place_spec(
    entity_type: u8,
    channel_id: Option<i64>,
    channel_in_guild: bool,
    location: Option<Seq<char>>,
) -> Result<(Option<i64>, Option<Seq<char>>), Seq<char>> {
    if entity_type == 1 || entity_type == 2 {
        match channel_id {
            None => Err("un salon est requis pour ce type d'événement"@),
            Some(c) => if channel_in_guild {
                Ok((Some(c), None))
            } else {
                Err("le salon doit appartenir à la guilde"@)
            },
        }
    } else {
        match location {
            Some(l) if trim_spec(l).len() > 0 => if trim_spec(l).len() > 1000 {
                Err("le lieu doit faire au plus 1000 caractères"@)
            } else {
                Ok((None, Some(trim_spec(l))))
            },
            _ => Err("un lieu est requis pour un événement externe"@),
        }
    }
}

/// Outcome of creating an event: the name, place and dates are checked in this order;
/// an error is a bad-request message.
pub open spec fn new_event_spec(
    name: Seq<char>,
    entity_type: u8,
    channel_id: Option<i64>,
    channel_in_guild: bool,
    location: Option<Seq<char>>,
    start: i64,
    end: Option<i64>,
) -> Result<(Seq<char>, Option<i64>, Option<Seq<char>>), Seq<char>> {
    let t = trim_spec(name);
    if !(1 <= t.len() <= 100) {
        Err("le nom de l'événement doit faire entre 1 et 100 caractères"@)
    } else if !(1 <= entity_type <= 3) {
        Err("type d'événement invalide (1 = stage, 2 = vocal, 3 = externe)"@)
    } else {
        match event_place_spec(entity_type, channel_id, channel_in_guild, location) {
            Err(m) => Err(m),
            Ok((c, l)) => if start <= 0 {
                Err("la date de début doit être valide"@)
            } else if end matches Some(e) && e <= start {
                Err("la date de fin doit être postérieure au début"@)
            } else {
                Ok((t, c, l))
            },
        }
    }
}

/// View of an optional string.
pub open spec fn opt_seq(s: Option<&str>) -> Option<Seq<char>> {
    match s {
        Some(v) => Some(v@),
        None => None,
    }
}

/// Checks the creation of an event. `channel_in_guild` says whether the channel given
/// (if any) exists and belongs to the guild.
pub fn plan_new_event(
    name: &str,
    entity_type: u8,
    channel_id: Option<i64>,
    channel_in_guild: bool,
    location: Option<&str>,
    start: i64,
    end: Option<i64>,
) -> (r: Result<NewEvent, AppError>)
    ensures
        match new_event_spec(name@, entity_type, channel_id, channel_in_guild, opt_seq(location), start, end) {
            Ok((n, c, l)) => r matches Ok(ev) && ev.name@ == n && ev.channel_id == c && (match ev.location {
                Some(s) => Some(s@),
                None => None,
            }) == l,
            Err(m) => r matches Err(e) && is_bad_request(e, m),
        },
{
    let name = match validate_event_name(name) {
        Ok(n) => n,
        Err(e) => return Err(e),
    };
    if !(1 <= entity_type && entity_type <= 3) {
        return Err(AppError::bad_request("type d'événement invalide (1 = stage, 2 = vocal, 3 = externe)"));
    }
    let (channel, place): (Option<i64>, Option<String>) = if entity_type == 1 || entity_type == 2 {
        match channel_id {
            None => return Err(AppError::bad_request("un salon est requis pour ce type d'événement")),
            Some(c) => {
                if !channel_in_guild {
                    return Err(AppError::bad_request("le salon doit appartenir à la guilde"));
                }
                (Some(c), None)
            },
        }
    } else {
        let loc = match location {
            Some(l) => trim(l),
            None => return Err(AppError::bad_request("un lieu est requis pour un événement externe")),
        };
        let n = char_count(loc.as_str());
        if n == 0 {
            return Err(AppError::bad_request("un lieu est requis pour un événement externe"));
        }
        if n > MAX_LOCATION_CHARS {
            return Err(AppError::bad_request("le lieu doit faire au plus 1000 caractères"));
        }
        (None, Some(loc))
    };
    if start <= 0 {
        return Err(AppError::bad_request("la date de début doit être valide"));
    }
    match end {
        Some(e) => if e <= start {
            return Err(AppError::bad_request("la date de fin doit être postérieure au début"));
        },
        None => {},
    }
    Ok(NewEvent { name, channel_id: channel, location: place })
}

/// The writes of an event update, field by field, and the error that stopped it. The
/// fields are checked and written one after the other, so the writes before an error
/// are made and those after it are not.
pub struct EventUpdate {
    pub name: Option<String>,
    pub description: Option<String>,
    pub cover_id: Option<String>,
    pub channel_id: Option<i64>,
    pub location: Option<String>,
    /// New start and end, written together.
    pub times: Option<(i64, Option<i64>)>,
    pub status: Option<u8>,
    pub error: Option<AppError>,
}

/// The sent name is refused.
pub open spec fn name_refused(name: Option<Seq<char>>) -> bool {
    name matches Some(n) && !(1 <= trim_spec(n).len() <= 100)
}

/// The start and end after an update (each taken from the request when sent).
pub open spec fn updated_times(cur_start: i64, cur_end: Option<i64>, start: Option<i64>, end: Option<i64>) -> (i64, Option<i64>) {
    (
        match start {
            Some(s) => s,
            None => cur_start,
        },
        if end is Some {
            end
        } else {
            cur_end
        },
    )
}

/// The sent dates leave the end at or before the start.
pub open spec fn times_refused(cur_start: i64, cur_end: Option<i64>, start: Option<i64>, end: Option<i64>) -> bool {
    (start is Some || end is Some) && (updated_times(cur_start, cur_end, start, end).1 matches Some(e)
        && e <= updated_times(cur_start, cur_end, start, end).0)
}

/// View of an optional string.
pub open spec fn opt_string(s: Option<String>) -> Option<Seq<char>> {
    match s {
        Some(v) => Some(v@),
        None => None,
    }
}

/// Plans an event update from its current dates and the sent fields. `channel_in_guild`
/// says whether the sent channel (if any) exists and belongs to the guild.
pub fn plan_event_update(
    cur_start: i64,
    cur_end: Option<i64>,
    name: Option<&str>,
    description: Option<String>,
    cover_id: Option<String>,
    channel_id: Option<i64>,
    channel_in_guild: bool,
    location: Option<String>,
    start: Option<i64>,
    end: Option<i64>,
    status: Option<u8>,
) -> (r: EventUpdate)
    ensures
        ({
            let e_name = name_refused(opt_seq(name));
            let e_channel = !e_name && channel_id is Some && !channel_in_guild;
            let e_times = !e_name && !e_channel && times_refused(cur_start, cur_end, start, end);
            let e_status = !e_name && !e_channel && !e_times && (status matches Some(s) && !(1 <= s
                <= 4));
            &&& opt_string(r.name) == (if !e_name && name is Some {
                Some(trim_spec(opt_seq(name)->Some_0))
            } else {
                None
            })
            &&& opt_string(r.description) == (if !e_name { opt_string(description) } else { None })
            &&& opt_string(r.cover_id) == (if !e_name { opt_string(cover_id) } else { None })
            &&& r.channel_id == (if !e_name && !e_channel { channel_id } else { None })
            &&& opt_string(r.location) == (if !e_name && !e_channel { opt_string(location) } else { None })
            &&& r.times == (if !e_name && !e_channel && !e_times && (start is Some || end is Some) {
                Some(updated_times(cur_start, cur_end, start, end))
            } else {
                None
            })
            &&& r.status == (if !e_name && !e_channel && !e_times && !e_status { status } else { None })
            &&& (e_name ==> (r.error matches Some(e) && is_bad_request(
                e,
                "le nom de l'événement doit faire entre 1 et 100 caractères"@,
            )))
            &&& (e_channel ==> (r.error matches Some(e) && is_bad_request(
                e,
                "le salon doit appartenir à la guilde"@,
            )))
            &&& (e_times ==> (r.error matches Some(e) && is_bad_request(
                e,
                "la date de fin doit être postérieure au début"@,
            )))
            &&& (e_status ==> (r.error matches Some(e) && is_bad_request(
                e,
                "statut invalide (1 = programmé, 2 = actif, 3 = terminé, 4 = annulé)"@,
            )))
            &&& (!e_name && !e_channel && !e_times && !e_status ==> r.error is None)
        }),
{
    let mut up = EventUpdate {
        name: None,
        description: None,
        cover_id: None,
        channel_id: None,
        location: None,
        times: None,
        status: None,
        error: None,
    };
    match name {
        Some(n) => match validate_event_name(n) {
            Ok(t) => {
                up.name = Some(t);
            },
            Err(e) => {
                up.error = Some(e);
                return up;
            },
        },
        None => {},
    }
    up.description = description;
    up.cover_id = cover_id;
    match channel_id {
        Some(c) => {
            if !channel_in_guild {
                up.error = Some(AppError::bad_request("le salon doit appartenir à la guilde"));
                return up;
            }
            up.channel_id = Some(c);
        },
        None => {},
    }
    up.location = location;
    if start.is_some() || end.is_some() {
        let new_start = match start {
            Some(s) => s,
            None => cur_start,
        };
        let new_end = if end.is_some() {
            end
        } else {
            cur_end
        };
        match new_end {
            Some(e) => if e <= new_start {
                up.error = Some(AppError::bad_request("la date de fin doit être postérieure au début"));
                return up;
            },
            None => {},
        }
        up.times = Some((new_start, new_end));
    }
    match status {
        Some(s) => {
            if !(1 <= s && s <= 4) {
                up.error = Some(
                    AppError::bad_request("statut invalide (1 = programmé, 2 = actif, 3 = terminé, 4 = annulé)"),
                );
                return up;
            }
            up.status = Some(s);
        },
        None => {},
    }
    up
}

} // verus!
