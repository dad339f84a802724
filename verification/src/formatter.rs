//! The earlier rule set for artist and title: the same helpers as [`crate::formatting`],
//! with its own substitution tables and removal of BPM and key information, and without the
//! "Various Artists" and letter-case rules.
use vstd::prelude::*;

pub use crate::formatting::{
    extract_feat_from_parentheses, fix_nested_parentheses, fix_whitespace, format_album,
    format_filename, use_parenthesis_for_mix, wrap_text_after_parentheses,
};
use crate::formatting::{
    balance_parenthesis, common_substitutes, common_substitutes_table, ends_with_any_ci,
    file_extensions, kept_suffixes, move_feat_from_title_to_artist, pairs_view,
    regex_substitute_all, regex_substituted, remove_unmatched_closing_parenthesis,
    replace_dash_in_parentheses, replace_str, spec_balance_parenthesis,
    spec_extract_feat_from_parentheses, spec_fix_nested_parentheses, spec_move_feat,
    spec_remove_unmatched_closing, spec_replace_dash_in_parentheses,
    spec_use_parenthesis_for_mix, spec_wrap_text_after_parentheses, strip_extensions,
    strip_extensions_exec, substitute_all, substituted, suffix_kept, trim_string,
};
use crate::text::{
    concat, from_chars, replace, replacen, replacen_chars, seq_starts_with, starts_with,
    to_chars, trim, trim_start_matches, trim_start_matches_chars,
};

verus! {

/// The BPM patterns of this rule set; every one of them is applied, in this order, and their
/// matches removed.
pub open spec fn legacy_bpm_table() -> Seq<(Seq<char>, Seq<char>)> {
    seq![
        (" \\((\\d{2,3}(\\.\\d)?|\\d{2,3} \\d{1,2}a)\\)$"@, ""@),
        ("\\s\\(\\d{1,3}(?:\\s\\d{1,2})?\\s?[a-zA-Z]\\)$"@, ""@),
        ("\\s\\(\\d{2,3}\\s?[a-zA-Z]{2,3}\\)$"@, ""@),
        ("\\b\\d{2,3}\\s?[a-zA-Z]{2,3}\\)$"@, ""@),
    ]
}

fn legacy_bpm_table_exec() -> (t: Vec<(&'static str, &'static str)>)
    ensures
        pairs_view(t@) == legacy_bpm_table(),
{
    let t = vec![
        (" \\((\\d{2,3}(\\.\\d)?|\\d{2,3} \\d{1,2}a)\\)$", ""),
        ("\\s\\(\\d{1,3}(?:\\s\\d{1,2})?\\s?[a-zA-Z]\\)$", ""),
        ("\\s\\(\\d{2,3}\\s?[a-zA-Z]{2,3}\\)$", ""),
        ("\\b\\d{2,3}\\s?[a-zA-Z]{2,3}\\)$", ""),
    ];
    assert(pairs_view(t@) =~= legacy_bpm_table());
    t
}

/// A title that ends like one of [`kept_suffixes`] stays; otherwise the matches of every BPM
/// pattern are removed.
pub open spec fn spec_remove_bpm_legacy(s: Seq<char>) -> Seq<char> {
    if ends_with_any_ci(s, kept_suffixes()) {
        s
    } else {
        regex_substituted(s, legacy_bpm_table())
    }
}

/// Remove BPM and key information from the end of a title.
pub fn remove_bpm_in_parentheses_from_end(text: &mut String)
    ensures
        final(text)@ == spec_remove_bpm_legacy(old(text)@),
{
    if suffix_kept(text.as_str()) {
        return;
    }
    let table = legacy_bpm_table_exec();
    *text = regex_substitute_all(text.as_str(), &table);
}

// ---------------------------------------------------------------------------
// Rule tables
// ---------------------------------------------------------------------------

/// Plain-text substitutions applied to titles.
pub open spec fn legacy_title_substitutes() -> Seq<(Seq<char>, Seq<char>)> {
    seq![
        ("(Original Mix/"@, "("@),
        ("12\""@, "12''"@),
        (" (12 Version) "@, " (12'' Version) "@),
        ("(Inst)"@, "(Instrumental)"@),
        (" W/Drums"@, " With Drums"@),
        ("), Pt. 1"@, ") (Pt. 1)"@),
        ("/Cyberkid "@, " - Cyberkid "@),
        ("-Dirty/Beat Junkie Sound "@, " - Dirty Beat Junkie Sound "@),
        ("-DirtyBeat Junkie Sound "@, " - Dirty Beat Junkie Sound "@),
        ("/Clean-Beat Junkie Sound "@, " - Clean Beat Junkie Sound "@),
        ("-Clean/Beat Junkie Sound "@, " - Clean Beat Junkie Sound "@),
        ("-CleanBeat Junkie Sound "@, " - Clean Beat Junkie Sound "@),
        (" Version/cyberkid "@, " Version - Cyberkid "@),
        ("/Beat Junkie "@, " - Beat Junkie "@),
        ("(Clean- "@, "(Clean "@),
    ]
}

fn legacy_title_substitutes_table() -> (t: Vec<(&'static str, &'static str)>)
    ensures
        pairs_view(t@) == legacy_title_substitutes(),
{
    let t = vec![
        ("(Original Mix/", "("),
        ("12\"", "12''"),
        (" (12 Version) ", " (12'' Version) "),
        ("(Inst)", "(Instrumental)"),
        (" W/Drums", " With Drums"),
        ("), Pt. 1", ") (Pt. 1)"),
        ("/Cyberkid ", " - Cyberkid "),
        ("-Dirty/Beat Junkie Sound ", " - Dirty Beat Junkie Sound "),
        ("-DirtyBeat Junkie Sound ", " - Dirty Beat Junkie Sound "),
        ("/Clean-Beat Junkie Sound ", " - Clean Beat Junkie Sound "),
        ("-Clean/Beat Junkie Sound ", " - Clean Beat Junkie Sound "),
        ("-CleanBeat Junkie Sound ", " - Clean Beat Junkie Sound "),
        (" Version/cyberkid ", " Version - Cyberkid "),
        ("/Beat Junkie ", " - Beat Junkie "),
        ("(Clean- ", "(Clean "),
    ];
    assert(pairs_view(t@) =~= legacy_title_substitutes());
    t
}

/// Regular-expression substitutions for brackets, punctuation and spacing.
pub open spec fn legacy_regex_substitutes() -> Seq<(Seq<char>, Seq<char>)> {
    seq![
        ("[\\[{]+"@, "("@),
        ("[\\]}]+"@, ")"@),
        ("!{2,}"@, "!"@),
        ("\\.{2,}"@, "."@),
        ("\\(\\s*?\\)"@, ""@),
        ("(\\S)\\("@, "$1 ("@),
        ("\\)([A-Za-z0-9])"@, ") $1"@),
        ("\\(\\s*\\){2,}"@, "("@),
        ("\\)\\s*\\){2,}"@, ")"@),
        ("\\s_(.*?)_\\s"@, " '$1' "@),
        ("\\s\\*+\\b"@, ""@),
        ("\\s+"@, " "@),
    ]
}

fn legacy_regex_substitutes_table() -> (t: Vec<(&'static str, &'static str)>)
    ensures
        pairs_view(t@) == legacy_regex_substitutes(),
{
    let t = vec![
        ("[\\[{]+", "("),
        ("[\\]}]+", ")"),
        ("!{2,}", "!"),
        ("\\.{2,}", "."),
        ("\\(\\s*?\\)", ""),
        ("(\\S)\\(", "$1 ("),
        ("\\)([A-Za-z0-9])", ") $1"),
        ("\\(\\s*\\){2,}", "("),
        ("\\)\\s*\\){2,}", ")"),
        ("\\s_(.*?)_\\s", " '$1' "),
        ("\\s\\*+\\b", ""),
        ("\\s+", " "),
    ];
    assert(pairs_view(t@) =~= legacy_regex_substitutes());
    t
}

/// Regular-expression substitutions for names, spellings and mix labels.
pub open spec fn legacy_regex_name_substitutes() -> Seq<(Seq<char>, Seq<char>)> {
    seq![
        ("(?i)\\b12\\s?inch\\b"@, "12''"@),
        ("(?i)\\b12\\s?in\\b"@, "12''"@),
        ("(?i)\\b7\\s?inch\\b"@, "7''"@),
        ("(?i)\\b7\\s?in\\b"@, "7''"@),
        ("(?i)\\b(?:feat\\.?|ft\\.?|featuring)\\b"@, "feat."@),
        ("(?i)\\(\\s*(?:feat\\.?|ft\\.?|featuring)\\b"@, "(feat."@),
        ("(?i)\\sW/"@, " feat. "@),
        ("[®™]"@, ""@),
        ("(?i)\\bMissy Elliot\\b|\\bMissy Elliot$"@, "Missy Elliott"@),
        ("(?i)\\bGangstarr\\b|\\bGangstarr$"@, "Gang Starr"@),
        ("(?i)\\bYoure\\b"@, "You're"@),
        ("(?i)\\bIm\\b"@, "I'm"@),
        ("(?i)\\bYouve\\b"@, "You've"@),
        ("(?i)\\bCant\\b"@, "Can't"@),
        ("(?i)\\bWont\\b"@, "Won't"@),
        ("(?i)\\bDont\\b"@, "Don't"@),
        ("(?i)\\bDj\\b"@, "DJ"@),
        ("\\bfeat\\.([A-Za-z0-9])"@, "feat. $1"@),
        ("(?i)\\b(dirty!)\\b"@, "(Dirty)"@),
        ("(?i)\\b\\(original mix\\)\\b"@, ""@),
        ("(?i)\\bdjcity\\b"@, ""@),
        ("(?i)\\bintro - clean\\b"@, "Clean Intro"@),
        ("(?i)\\bintro - dirty\\b"@, "Dirty Intro"@),
        ("(?i)\\(clean - intro\\)"@, "(Clean Intro)"@),
        ("(?i)\\(dirty - intro\\)"@, "(Dirty Intro)"@),
        ("(?i)\\bIn[:\\s/+\\-&]*out\\b"@, "In-Out"@),
        ("(?i)\\bIntro[:\\s/+\\-&]*outro\\b"@, "Intro"@),
        ("(?i)\\bAca In\\b"@, "Acapella Intro"@),
        ("(?i)\\bAca intro[:\\s/+\\-&]*aca outro\\b"@, "Acapella In-Out"@),
        ("(?i)\\bAcapella Intro[:\\s/+\\-&]*aca out\\b"@, "Acapella In-Out"@),
        ("(?i)\\bAca Out\\b"@, "Acapella Out"@),
        ("(?i)\\bAcap-In\\b"@, "Acapella Intro"@),
        ("(?i)\\bAcap - diy\\b"@, "Acapella DIY"@),
        ("(?i)\\bAcap in[:\\s/+\\-&]*out\\b"@, "Acapella In-Out"@),
        ("(?i)\\bAcap\\b"@, "Acapella"@),
        ("(?i)\\bAcapella[\\s/+\\-]*In[:\\s/+\\-&]*Out\\b"@, "Acapella In-Out"@),
        ("(?i)\\bAcapella[\\s/+\\-]*In\\b"@, "Acapella Intro"@),
        ("(?i)\\bAcapella Intro[:\\s/+\\-&]*Out\\b"@, "Acapella In-Out"@),
        ("(?i)\\bAcapella-Intro[:\\s/+\\-&]*Out\\b"@, "Acapella In-Out"@),
        ("(?i)\\bAcapella-Intro\\b"@, "Acapella Intro"@),
        ("(?i)\\bAcapella-out\\b"@, "Acapella Out"@),
    ]
}

fn legacy_regex_name_substitutes_table() -> (t: Vec<(&'static str, &'static str)>)
    ensures
        pairs_view(t@) == legacy_regex_name_substitutes(),
{
    let t = vec![
        ("(?i)\\b12\\s?inch\\b", "12''"),
        ("(?i)\\b12\\s?in\\b", "12''"),
        ("(?i)\\b7\\s?inch\\b", "7''"),
        ("(?i)\\b7\\s?in\\b", "7''"),
        ("(?i)\\b(?:feat\\.?|ft\\.?|featuring)\\b", "feat."),
        ("(?i)\\(\\s*(?:feat\\.?|ft\\.?|featuring)\\b", "(feat."),
        ("(?i)\\sW/", " feat. "),
        ("[®™]", ""),
        ("(?i)\\bMissy Elliot\\b|\\bMissy Elliot$", "Missy Elliott"),
        ("(?i)\\bGangstarr\\b|\\bGangstarr$", "Gang Starr"),
        ("(?i)\\bYoure\\b", "You're"),
        ("(?i)\\bIm\\b", "I'm"),
        ("(?i)\\bYouve\\b", "You've"),
        ("(?i)\\bCant\\b", "Can't"),
        ("(?i)\\bWont\\b", "Won't"),
        ("(?i)\\bDont\\b", "Don't"),
        ("(?i)\\bDj\\b", "DJ"),
        ("\\bfeat\\.([A-Za-z0-9])", "feat. $1"),
        ("(?i)\\b(dirty!)\\b", "(Dirty)"),
        ("(?i)\\b\\(original mix\\)\\b", ""),
        ("(?i)\\bdjcity\\b", ""),
        ("(?i)\\bintro - clean\\b", "Clean Intro"),
        ("(?i)\\bintro - dirty\\b", "Dirty Intro"),
        ("(?i)\\(clean - intro\\)", "(Clean Intro)"),
        ("(?i)\\(dirty - intro\\)", "(Dirty Intro)"),
        ("(?i)\\bIn[:\\s/+\\-&]*out\\b", "In-Out"),
        ("(?i)\\bIntro[:\\s/+\\-&]*outro\\b", "Intro"),
        ("(?i)\\bAca In\\b", "Acapella Intro"),
        ("(?i)\\bAca intro[:\\s/+\\-&]*aca outro\\b", "Acapella In-Out"),
        ("(?i)\\bAcapella Intro[:\\s/+\\-&]*aca out\\b", "Acapella In-Out"),
        ("(?i)\\bAca Out\\b", "Acapella Out"),
        ("(?i)\\bAcap-In\\b", "Acapella Intro"),
        ("(?i)\\bAcap - diy\\b", "Acapella DIY"),
        ("(?i)\\bAcap in[:\\s/+\\-&]*out\\b", "Acapella In-Out"),
        ("(?i)\\bAcap\\b", "Acapella"),
        ("(?i)\\bAcapella[\\s/+\\-]*In[:\\s/+\\-&]*Out\\b", "Acapella In-Out"),
        ("(?i)\\bAcapella[\\s/+\\-]*In\\b", "Acapella Intro"),
        ("(?i)\\bAcapella Intro[:\\s/+\\-&]*Out\\b", "Acapella In-Out"),
        ("(?i)\\bAcapella-Intro[:\\s/+\\-&]*Out\\b", "Acapella In-Out"),
        ("(?i)\\bAcapella-Intro\\b", "Acapella Intro"),
        ("(?i)\\bAcapella-out\\b", "Acapella Out"),
    ];
    assert(pairs_view(t@) =~= legacy_regex_name_substitutes());
    t
}


// ---------------------------------------------------------------------------
// Artist and title
// ---------------------------------------------------------------------------

/// Formatted artist and title under this rule set.
pub open spec fn spec_format_tags(artist: Seq<char>, title: Seq<char>) -> (Seq<char>, Seq<char>) {
    let a1 = substituted(strip_extensions(artist, file_extensions()), common_substitutes());
    let t1 = substituted(
        substituted(strip_extensions(title, file_extensions()), common_substitutes()),
        legacy_title_substitutes(),
    );
    let a2 = regex_substituted(
        regex_substituted(a1, legacy_regex_name_substitutes()),
        legacy_regex_substitutes(),
    );
    let t2 = regex_substituted(
        regex_substituted(t1, legacy_regex_name_substitutes()),
        legacy_regex_substitutes(),
    );
    let t3 = if starts_with(t2, a2 + " - "@) {
        replacen(t2, a2 + " - "@, ""@, 1)
    } else {
        t2
    };
    let a3 = trim_start_matches(a2, "."@);
    let (a4, t4) = spec_move_feat(a3, spec_use_parenthesis_for_mix(t3));
    let t5 = spec_remove_bpm_legacy(
        spec_wrap_text_after_parentheses(
            spec_fix_nested_parentheses(spec_replace_dash_in_parentheses(t4)),
        ),
    );
    let a5 = spec_extract_feat_from_parentheses(spec_remove_unmatched_closing(a4));
    let t6 = spec_balance_parenthesis(replace(replace(t5, "(("@, "("@), "))"@, ")"@));
    let a7 = substituted(regex_substituted(a5, legacy_regex_substitutes()), common_substitutes());
    let t7 = substituted(regex_substituted(t6, legacy_regex_substitutes()), common_substitutes());
    (trim(a7), trim(t7))
}

fn format_tags_start(artist: &str, title: &str) -> (r: (String, String))
    ensures
        ({
            let a1 = substituted(strip_extensions(artist@, file_extensions()), common_substitutes());
            let t1 = substituted(
                substituted(strip_extensions(title@, file_extensions()), common_substitutes()),
                legacy_title_substitutes(),
            );
            let a2 = regex_substituted(
                regex_substituted(a1, legacy_regex_name_substitutes()),
                legacy_regex_substitutes(),
            );
            let t2 = regex_substituted(
                regex_substituted(t1, legacy_regex_name_substitutes()),
                legacy_regex_substitutes(),
            );
            let t3 = if starts_with(t2, a2 + " - "@) {
                replacen(t2, a2 + " - "@, ""@, 1)
            } else {
                t2
            };
            r.0@ == trim_start_matches(a2, "."@) && r.1@ == t3
        }),
{
    let common = common_substitutes_table();
    let title_table = legacy_title_substitutes_table();
    let names = legacy_regex_name_substitutes_table();
    let regexes = legacy_regex_substitutes_table();
    let a0 = strip_extensions_exec(artist);
    let t0 = strip_extensions_exec(title);
    let a1 = substitute_all(a0.as_str(), &common);
    let t1 = substitute_all(substitute_all(t0.as_str(), &common).as_str(), &title_table);
    let a2 = to_chars(
        regex_substitute_all(regex_substitute_all(a1.as_str(), &names).as_str(), &regexes).as_str(),
    );
    let t2 = to_chars(
        regex_substitute_all(regex_substitute_all(t1.as_str(), &names).as_str(), &regexes).as_str(),
    );
    let with_dash = concat(&a2, &to_chars(" - "));
    let empty: Vec<char> = Vec::new();
    assert(empty@ =~= ""@) by {
        reveal_strlit("");
    }
    let t3 = if seq_starts_with(&t2, &with_dash) {
        replacen_chars(&t2, &with_dash, &empty, 1)
    } else {
        t2
    };
    let a3 = trim_start_matches_chars(&a2, &to_chars("."));
    (from_chars(&a3), from_chars(&t3))
}

/// Return the formatted artist and title.
pub fn format_tags_for_artist_and_title(artist: &str, title: &str) -> (r: (String, String))
    ensures
        (r.0@, r.1@) == spec_format_tags(artist@, title@),
{
    let (mut a, mut t) = format_tags_start(artist, title);
    use_parenthesis_for_mix(&mut t);
    move_feat_from_title_to_artist(&mut a, &mut t);
    replace_dash_in_parentheses(&mut t);
    fix_nested_parentheses(&mut t);
    wrap_text_after_parentheses(&mut t);
    remove_bpm_in_parentheses_from_end(&mut t);
    remove_unmatched_closing_parenthesis(&mut a);
    let tc = replace_str(&replace_str(&to_chars(t.as_str()), "((", "("), "))", ")");
    let mut t = from_chars(&tc);
    extract_feat_from_parentheses(&mut a);
    balance_parenthesis(&mut t);
    let common = common_substitutes_table();
    let regexes = legacy_regex_substitutes_table();
    let a7 = substitute_all(regex_substitute_all(a.as_str(), &regexes).as_str(), &common);
    let t7 = substitute_all(regex_substitute_all(t.as_str(), &regexes).as_str(), &common);
    (trim_string(a7.as_str()), trim_string(t7.as_str()))
}

} // verus!
