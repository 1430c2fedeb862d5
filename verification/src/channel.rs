//! Channel maps: settings of the form `<name>=<value>,<name>=<value>`, such
//! as `slow=mos,typical=wos,express=dtos`.

use crate::text::{is_blank, pieces, split_chars, str_eq, texts_view};
use vstd::prelude::*;

verus! {

/// The name and the value of one entry: what stands before its first and
/// before its second equals sign. An entry without an equals sign has none.
pub open spec fn entry_of(entry: Seq<char>) -> Option<(Seq<char>, Seq<char>)> {
    let parts = pieces(entry, '=');
    if parts.len() >= 2 {
        Some((parts[0], parts[1]))
    } else {
        None
    }
}

/// The entries of a list of pieces, in their order; empty pieces are passed
/// over, and one piece that is no entry spoils the whole list.
pub open spec fn entries_of(list: Seq<Seq<char>>) -> Option<Seq<(Seq<char>, Seq<char>)>>
    decreases list.len(),
{
    if list.len() == 0 {
        Some(Seq::empty())
    } else {
        match entries_of(list.drop_last()) {
            None => None,
            Some(before) => if list.last().len() == 0 {
                Some(before)
            } else {
                match entry_of(list.last()) {
                    Some(entry) => Some(before.push(entry)),
                    None => None,
                }
            },
        }
    }
}

/// The entries of a channel map.
pub open spec fn channel_map(encoded: Seq<char>) -> Option<Seq<(Seq<char>, Seq<char>)>> {
    entries_of(pieces(encoded, ','))
}

/// The value of the last entry called `name`.
pub open spec fn last_value(entries: Seq<(Seq<char>, Seq<char>)>, name: Seq<char>) -> Option<
    Seq<char>,
>
    decreases entries.len(),
{
    if entries.len() == 0 {
        None
    } else if entries.last().0 == name {
        Some(entries.last().1)
    } else {
        last_value(entries.drop_last(), name)
    }
}

pub open spec fn entries_view(entries: Seq<(String, String)>) -> Seq<(Seq<char>, Seq<char>)> {
    entries.map_values(|e: (String, String)| (e.0@, e.1@))
}

proof fn lemma_entries_fail(list: Seq<Seq<char>>, n: int)
    requires
        0 <= n <= list.len(),
        entries_of(list.take(n)) is None,
    ensures
        entries_of(list) is None,
    decreases list.len() - n,
{
    if n < list.len() {
        assert(list.take(n + 1).drop_last() =~= list.take(n));
        lemma_entries_fail(list, n + 1);
    } else {
        assert(list.take(n) =~= list);
    }
}

/// Reads a channel map. Nothing is returned where an entry has no equals
/// sign.
pub fn parse_channel_map(encoded: &str) -> (map: Option<Vec<(String, String)>>)
    ensures
        match map {
            Some(entries) => channel_map(encoded@) == Some(entries_view(entries@)),
            None => channel_map(encoded@) is None,
        },
{
    let list = split_chars(encoded, ',');
    let ghost views = texts_view(list@);
    let mut entries: Vec<(String, String)> = Vec::new();
    let mut i: usize = 0;
    assert(views.take(0) =~= Seq::empty());
    assert(entries_view(entries@) =~= Seq::empty());
    while i < list.len()
        invariant
            i <= list@.len(),
            views == texts_view(list@),
            views == pieces(encoded@, ','),
            entries_of(views.take(i as int)) == Some(entries_view(entries@)),
        decreases list@.len() - i,
    {
        let ghost before = entries_view(entries@);
        proof {
            assert(views.take(i + 1).drop_last() =~= views.take(i as int));
            assert(views.take(i + 1).last() == list@[i as int]@);
        }
        if !is_blank(list[i].as_str()) {
            let mut parts = split_chars(list[i].as_str(), '=');
            if parts.len() < 2 {
                proof {
                    lemma_entries_fail(views, i + 1);
                }
                return None;
            }
            let ghost split = texts_view(parts@);
            let value = parts.swap_remove(1);
            let name = parts.swap_remove(0);
            assert(name@ == split[0] && value@ == split[1]);
            entries.push((name, value));
            assert(entries_view(entries@) =~= before.push((name@, value@)));
        }
        i += 1;
    }
    assert(views.take(i as int) =~= views);
    Some(entries)
}

/// What a channel setting gives for a key: the value of the last entry of
/// the map that is called `env_key`, or `channel_name` where the map has no
/// such entry; nothing where the map cannot be read.
pub open spec fn channel_value(encoded: Seq<char>, env_key: Seq<char>, channel_name: Seq<char>) -> Option<
    Seq<char>,
> {
    match channel_map(encoded) {
        None => None,
        Some(entries) => match last_value(entries, env_key) {
            Some(value) => Some(value),
            None => Some(channel_name),
        },
    }
}

/// Looks a key up in the channel map that the environment gives under it:
/// `env_value` is what the environment holds, and `default` the map to read
/// where it holds nothing.
pub fn get_data_channel_value_from_env(
    env_value: Option<&str>,
    env_key: &str,
    default: &str,
    channel_name: &str,
) -> (value: Option<String>)
    ensures
        crate::text::optional_text(value) == channel_value(
            match env_value {
                Some(given) => given@,
                None => default@,
            },
            env_key@,
            channel_name@,
        ),
{
    let encoded = match env_value {
        Some(given) => given,
        None => default,
    };
    let entries = match parse_channel_map(encoded) {
        Some(entries) => entries,
        None => {
            return None;
        },
    };
    let ghost views = entries_view(entries@);
    let mut i: usize = entries.len();
    assert(views.take(i as int) =~= views);
    while i > 0
        invariant
            i <= entries@.len(),
            views == entries_view(entries@),
            channel_map(encoded@) == Some(views),
            encoded@ == match env_value {
                Some(given) => given@,
                None => default@,
            },
            last_value(views, env_key@) == last_value(views.take(i as int), env_key@),
        decreases i,
    {
        i -= 1;
        assert(views.take(i + 1).last() == (entries@[i as int].0@, entries@[i as int].1@));
        assert(views.take(i + 1).drop_last() =~= views.take(i as int));
        if str_eq(entries[i].0.as_str(), env_key) {
            return Some(entries[i].1.clone());
        }
    }
    Some(channel_name.to_owned())
}

/// Which database a connection is for.
#[derive(Clone, Copy, Debug)]
pub enum DBConnectionType<'a> {
    Test,
    Normal { channel_name: &'a str },
}

/// The URL of a channel's database: the server's URL, a slash and the name
/// of the database.
pub fn channel_db_url(db_url: &str, database_name: &str) -> (url: String)
    ensures
        url@ == db_url@ + "/"@ + database_name@,
{
    let mut url = db_url.to_owned();
    url.append("/");
    url.append(database_name);
    url
}

} // verus!
