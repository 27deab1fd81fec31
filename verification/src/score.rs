//! The score that an add-on gives a stream, shown in the stream's file name.
use vstd::prelude::*;
use vstd::slice::slice_subrange;
use crate::json::{entry, set_entry, text_value, Json};
use crate::model::opt_json;
use crate::text::{
    chars_of, first_white, lemma_trim_start, lemma_white_index, occurs_at, rfind,
    rfind_in, starts_with, trim_start, white_index, without_leading_white,
};

verus! {

/// The first of the words of a text, which white space parts.
pub open spec fn first_word(s: Seq<char>) -> Option<Seq<char>> {
    let t = trim_start(s);
    if t.len() == 0 {
        None
    } else {
        Some(t.take(white_index(t)))
    }
}

/// The score that a title tells: the first word behind its last `Score:`.
pub open spec fn score_of(title: Seq<char>) -> Option<Seq<char>> {
    match rfind(title, "Score:"@, title.len() - "Score:"@.len()) {
        Some(i) => first_word(title.skip(i + 6)),
        None => None,
    }
}

/// The score that a title tells.
pub fn source_score(title: &str) -> (r: Option<&str>)
    ensures
        match r {
            Some(score) => score_of(title@) == Some(score@),
            None => score_of(title@) is None,
        },
{
    let chars: Vec<char> = chars_of(title);
    let s: &[char] = chars.as_slice();
    let mark: Vec<char> = chars_of("Score:");
    proof {
        reveal_strlit("Score:");
    }
    match rfind_in(s, mark.as_slice()) {
        None => None,
        Some(i) => {
            let behind: &[char] = slice_subrange(s, i + 6, s.len());
            assert(behind@ == title@.skip(i + 6));
            let words: &[char] = without_leading_white(behind);
            proof {
                lemma_trim_start(behind@);
                lemma_white_index(words@);
            }
            if words.len() == 0 {
                return None;
            }
            let from: usize = s.len() - words.len();
            let to: usize = from + first_white(words);
            let score: &str = title.substring_char(from, to);
            assert(score@ == words@.take(white_index(words@)));
            Some(score)
        },
    }
}

/// What a file name that shows a score starts with.
pub open spec fn score_prefix() -> Seq<char> {
    "🎯 SCORE "@
}

/// A file name with a score before it.
pub open spec fn scored_name(score: Seq<char>, filename: Seq<char>) -> Seq<char> {
    score_prefix() + score + " 🎯 • "@ + filename
}

/// What an add-on told of a stream, with a score in its entry `filename`, where
/// it has that entry and the entry is a text that shows no score yet.
pub open spec fn with_score(info: Json, score: Seq<char>) -> Json {
    match info {
        Json::Dict(entries) => if entries.dom().contains("filename"@) {
            match entries["filename"@] {
                Json::Text(filename) => if occurs_at(filename, score_prefix(), 0) {
                    info
                } else {
                    Json::Dict(
                        entries.insert("filename"@, Json::Text(scored_name(score, filename))),
                    )
                },
                _ => info,
            }
        } else {
            info
        },
        _ => info,
    }
}

/// What an add-on told of a stream, with the score that the stream's title tells
/// where that is asked for.
pub open spec fn scored_info(info: Option<Json>, title: Seq<char>, enabled: bool) -> Option<Json> {
    if !enabled {
        info
    } else {
        match (info, score_of(title)) {
            (Some(info), Some(score)) => Some(with_score(info, score)),
            _ => info,
        }
    }
}

/// What an add-on told of a stream, with the score that the stream's title tells
/// where that is asked for.
pub fn provider_info_with_score(
    info: Option<serde_json::Value>,
    title: &str,
    enabled: bool,
) -> (r: Option<serde_json::Value>)
    ensures
        opt_json(r) == scored_info(opt_json(info), title@, enabled),
{
    if !enabled {
        return info;
    }
    let score: &str = match source_score(title) {
        Some(score) => score,
        None => return info,
    };
    let mut value: serde_json::Value = match info {
        Some(value) => value,
        None => return None,
    };
    let scored: Option<String> = match entry(&value, "filename") {
        None => None,
        Some(found) => match found.as_str() {
            None => None,
            Some(filename) => {
                let chars: Vec<char> = chars_of(filename);
                let prefix: Vec<char> = chars_of("🎯 SCORE ");
                if starts_with(chars.as_slice(), prefix.as_slice()) {
                    None
                } else {
                    let mut name: String = "🎯 SCORE ".to_owned();
                    name.append(score);
                    name.append(" 🎯 • ");
                    name.append(filename);
                    Some(name)
                }
            },
        },
    };
    if let Some(name) = scored {
        set_entry(&mut value, "filename", text_value(name));
    }
    Some(value)
}

/// A score is put into what an add-on told once: doing it again changes nothing,
/// whatever the title then tells.
pub proof fn score_is_shown_once(
    info: Option<Json>,
    title: Seq<char>,
    later: Seq<char>,
    enabled: bool,
)
    requires
        score_of(title) is Some,
    ensures
        scored_info(scored_info(info, title, true), later, enabled) == scored_info(
            info,
            title,
            true,
        ),
{
    let score = score_of(title)->0;
    if let Some(Json::Dict(entries)) = info {
        if let Json::Text(filename) = entries["filename"@] {
            let name = scored_name(score, filename);
            assert(name.subrange(0, score_prefix().len() as int) =~= score_prefix());
        }
    }
}

/// Showing a score changes the file name alone.
pub proof fn score_changes_the_file_name_alone(
    entries: Map<Seq<char>, Json>,
    title: Seq<char>,
    enabled: bool,
)
    ensures
        scored_info(Some(Json::Dict(entries)), title, enabled) matches Some(Json::Dict(after))
            && after.remove("filename"@) == entries.remove("filename"@) && after.dom()
            == entries.dom(),
{
    let after = scored_info(Some(Json::Dict(entries)), title, enabled)->0->Dict_0;
    assert(after.remove("filename"@) =~= entries.remove("filename"@));
    assert(after.dom() =~= entries.dom());
}

} // verus!
