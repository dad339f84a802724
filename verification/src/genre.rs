//! Genre names: normalization rules and the default genre of each music folder.
use vstd::prelude::*;

use crate::formatting::{
    fix_whitespace, pairs_view, regex_substitute_all, regex_substituted, replace_str,
    spec_fix_whitespace, substitute_all, substituted, trim_string,
};
use crate::paths::{rfind_char, rfind_char_exec};
use crate::regexes::{regex_is_match, regex_matches};
use crate::text::{chars_eq, concat, from_chars, replace, slice_copy, to_chars, trim};

verus! {

/// Default genre for a music folder, by folder name.
pub open spec fn genre_mappings() -> Seq<(Seq<char>, Seq<char>)> {
    seq![
        ("DISCO 1"@, "Disco"@),
        ("DISCO CLASSICS"@, "Disco"@),
        ("DISCO EDITS 1"@, "Disco"@),
        ("DISCO EDITS WAACKING"@, "Disco"@),
        ("DISCO EDITS"@, "Disco"@),
        ("DISCO ELECTRO"@, "Electro"@),
        ("DISCO HI-NRG"@, "Disco Hi-NRG"@),
        ("DISCO ITALO"@, "Disco Italo"@),
        ("DISCO JAM 1"@, "Disco"@),
        ("DISCO JAM"@, "Disco"@),
        ("DISCO"@, "Disco"@),
        ("DRUM&BASS CHILL"@, "Drum & Bass"@),
        ("DRUM&BASS DARK"@, "Drum & Bass"@),
        ("DRUM&BASS EDITS"@, "Drum & Bass"@),
        ("DRUM&BASS POP"@, "Drum & Bass"@),
        ("DRUM&BASS"@, "Drum & Bass"@),
        ("DUBSTEP"@, "Dubstep"@),
        ("ELECTRONICA CHILL"@, "Electronica"@),
        ("ELECTRONICA"@, "Electronica"@),
        ("FUNK 80s 1"@, "Funk 80s"@),
        ("FUNK 80s"@, "Funk 80s"@),
        ("FUNK BOOGIE 1"@, "Funk Boogie"@),
        ("FUNK BOOGIE EDITS 1"@, "Funk Boogie"@),
        ("FUNK BOOGIE EDITS"@, "Funk Boogie"@),
        ("FUNK BOOGIE JAM"@, "Funk Boogie"@),
        ("FUNK BOOGIE POP"@, "Funk Boogie"@),
        ("FUNK BOOGIE"@, "Funk Boogie"@),
        ("FUNK BREAKS 1"@, "Funk Breaks"@),
        ("FUNK BREAKS CHILL"@, "Funk Breaks"@),
        ("FUNK BREAKS EDITS"@, "Funk Breaks"@),
        ("FUNK BREAKS JAM"@, "Funk Breaks"@),
        ("FUNK BREAKS TOP ROCK 1"@, "Funk Breaks"@),
        ("FUNK BREAKS TOP ROCK"@, "Funk Breaks"@),
        ("FUNK BREAKS"@, "Funk Breaks"@),
        ("FUNK CHILL 1"@, "Funk"@),
        ("FUNK CHILL"@, "Funk"@),
        ("FUNK CLASSICS 1"@, "Funk"@),
        ("FUNK CLASSICS"@, "Funk"@),
        ("FUNK EDITS 1"@, "Funk"@),
        ("FUNK EDITS 80s"@, "Funk"@),
        ("FUNK EDITS BATTLE"@, "Funk"@),
        ("FUNK EDITS CHILL 1"@, "Funk"@),
        ("FUNK EDITS CHILL"@, "Funk"@),
        ("FUNK EDITS CLASSICS"@, "Funk"@),
        ("FUNK EDITS JAM 1"@, "Funk"@),
        ("FUNK EDITS JAM"@, "Funk"@),
        ("FUNK EDITS"@, "Funk"@),
        ("FUNK JAM 1"@, "Funk"@),
        ("FUNK JAM CHILL"@, "Funk"@),
        ("FUNK JAM"@, "Funk"@),
        ("FUNK LOVE 1"@, "Funk"@),
        ("FUNK LOVE CHILL"@, "Funk"@),
        ("FUNK LOVE HITAAT"@, "Funk"@),
        ("FUNK LOVE"@, "Funk"@),
        ("FUNK MASHUP"@, "Funk"@),
        ("FUNK PARTY 1"@, "Funk"@),
        ("FUNK PARTY"@, "Funk"@),
        ("FUNK SAMPLE"@, "Funk"@),
        ("FUNK"@, "Funk"@),
        ("FUNKY 1"@, "Funk"@),
        ("FUNKY AFRO & LATIN"@, "Latin"@),
        ("FUNKY BOOGIE 1"@, "Funk Boogie"@),
        ("FUNKY BOOGIE JAM"@, "Funk Boogie"@),
        ("FUNKY BOOGIE"@, "Funk Boogie"@),
        ("FUNKY BREAKS BATTLE"@, "Funk Breaks"@),
        ("FUNKY BREAKS CHILL"@, "Funk Breaks"@),
        ("FUNKY BREAKS GHETTOFUNK"@, "Ghettofunk"@),
        ("FUNKY BREAKS JAM 1"@, "Funk Breaks"@),
        ("FUNKY BREAKS JAM"@, "Funk Breaks"@),
        ("FUNKY BREAKS LATIN"@, "Funk Breaks"@),
        ("FUNKY BREAKS PARTY"@, "Funk Breaks"@),
        ("FUNKY BREAKS RAP JAM"@, "Funk Breaks"@),
        ("FUNKY BREAKS RAP"@, "Funk Breaks"@),
        ("FUNKY BREAKS REGGAE"@, "Funk Breaks"@),
        ("FUNKY BREAKS"@, "Funk Breaks"@),
        ("FUNKY CHILL"@, "Funk"@),
        ("FUNKY JAM 1"@, "Disco Nu"@),
        ("FUNKY JAM CHILL"@, "Disco Nu"@),
        ("FUNKY JAM"@, "Disco Nu"@),
        ("FUNKY NU DISCO"@, "Disco Nu"@),
        ("FUNKY POP 1"@, "Funk"@),
        ("FUNKY POP"@, "Funk"@),
        ("FUNKY"@, "Funk"@),
        ("HIPHOP 1"@, "Hip-Hop"@),
        ("HIPHOP AFRO BEATS INSTRUMENTAL"@, "Afrobeats"@),
        ("HIPHOP AFRO BEATS"@, "Afrobeats"@),
        ("HIPHOP BATTLE 1"@, "Hip-Hop"@),
        ("HIPHOP BATTLE 90s"@, "Hip-Hop 90s"@),
        ("HIPHOP BATTLE BREAKS"@, "Hip-Hop"@),
        ("HIPHOP BATTLE CLUB"@, "Hip-Hop"@),
        ("HIPHOP BATTLE INSTRUMENTAL"@, "Hip-Hop"@),
        ("HIPHOP BATTLE NEW"@, "Hip-Hop"@),
        ("HIPHOP BATTLE POPPING INSTRUMENTAL"@, "Hip-Hop"@),
        ("HIPHOP BATTLE POPPING"@, "Hip-Hop"@),
        ("HIPHOP BATTLE TRAP"@, "Hip-Hop Trap"@),
        ("HIPHOP BATTLE"@, "Hip-Hop"@),
        ("HIPHOP BEATS 1"@, "Hip-Hop"@),
        ("HIPHOP BEATS BATTLE 1"@, "Hip-Hop"@),
        ("HIPHOP BEATS BATTLE"@, "Hip-Hop"@),
        ("HIPHOP BEATS CHILL"@, "Hip-Hop"@),
        ("HIPHOP BEATS ELECTRO"@, "Hip-Hop"@),
        ("HIPHOP BEATS GLITCH"@, "Glitch Hop"@),
        ("HIPHOP BEATS JAM 1"@, "Hip-Hop"@),
        ("HIPHOP BEATS JAM"@, "Hip-Hop"@),
        ("HIPHOP BEATS POPPING JAM"@, "Hip-Hop"@),
        ("HIPHOP BEATS POPPING"@, "Hip-Hop"@),
        ("HIPHOP BEATS TRAP"@, "Hip-Hop Trap"@),
        ("HIPHOP BEATS"@, "Hip-Hop"@),
        ("HIPHOP CHILL 1"@, "Hip-Hop"@),
        ("HIPHOP CHILL"@, "Hip-Hop"@),
        ("HIPHOP CLUB"@, "Hip-Hop"@),
        ("HIPHOP DANCEHALL"@, "Dancehall"@),
        ("HIPHOP ELECTRO"@, "Electro"@),
        ("HIPHOP FUTURE BASS"@, "Hip-Hop"@),
        ("HIPHOP G-FUNK"@, "Hip-Hop G-Funk"@),
        ("HIPHOP INSTRUMENTAL 1"@, "Hip-Hop"@),
        ("HIPHOP INSTRUMENTAL 90s"@, "Hip-Hop 90s"@),
        ("HIPHOP INSTRUMENTAL BREAKS"@, "Hip-Hop"@),
        ("HIPHOP INSTRUMENTAL CHILL"@, "Hip-Hop"@),
        ("HIPHOP INSTRUMENTAL CLUB"@, "Hip-Hop"@),
        ("HIPHOP INSTRUMENTAL G-FUNK"@, "Hip-Hop G-Funk"@),
        ("HIPHOP INSTRUMENTAL JAM 1"@, "Hip-Hop"@),
        ("HIPHOP INSTRUMENTAL JAM"@, "Hip-Hop"@),
        ("HIPHOP INSTRUMENTAL PARTY"@, "Hip-Hop"@),
        ("HIPHOP INSTRUMENTAL POP"@, "Hip-Hop"@),
        ("HIPHOP INSTRUMENTAL RNB"@, "R&B"@),
        ("HIPHOP INSTRUMENTAL SUOMIRAP"@, "Hip-Hop Suomirap"@),
        ("HIPHOP INSTRUMENTAL"@, "Hip-Hop"@),
        ("HIPHOP JAM 1"@, "Hip-Hop"@),
        ("HIPHOP JAM 90s"@, "Hip-Hop 90s"@),
        ("HIPHOP JAM BREAKS"@, "Hip-Hop"@),
        ("HIPHOP JAM CHILL"@, "Hip-Hop"@),
        ("HIPHOP JAM EDITS"@, "Hip-Hop"@),
        ("HIPHOP JAM G-FUNK"@, "Hip-Hop G-Funk"@),
        ("HIPHOP JAM NEW"@, "Hip-Hop"@),
        ("HIPHOP JAM"@, "Hip-Hop"@),
        ("HIPHOP JERSEY CLUB"@, "Jersey Club"@),
        ("HIPHOP NEW JACK SWING 1"@, "New Jack Swing"@),
        ("HIPHOP NEW JACK SWING CHILL"@, "New Jack Swing"@),
        ("HIPHOP NEW JACK SWING"@, "New Jack Swing"@),
        ("HIPHOP OLD SCHOOL"@, "Hip-Hop"@),
        ("HIPHOP PARTY 1"@, "Hip-Hop"@),
        ("HIPHOP PARTY 90s"@, "Hip-Hop 90s"@),
        ("HIPHOP PARTY BREAKS"@, "Hip-Hop"@),
        ("HIPHOP PARTY"@, "Hip-Hop"@),
        ("HIPHOP RNB 1"@, "R&B"@),
        ("HIPHOP RNB 90s"@, "R&B"@),
        ("HIPHOP RNB CHILL 1"@, "R&B"@),
        ("HIPHOP RNB CHILL"@, "R&B"@),
        ("HIPHOP RNB CLUB"@, "R&B"@),
        ("HIPHOP RNB EDITS"@, "R&B"@),
        ("HIPHOP RNB"@, "R&B"@),
        ("HIPHOP SAMPLE"@, "Hip-Hop"@),
        ("HIPHOP SUOMIRAP 1"@, "Hip-Hop Suomirap"@),
        ("HIPHOP SUOMIRAP LOPETUS"@, "Hip-Hop Suomirap"@),
        ("HIPHOP SUOMIRAP"@, "Hip-Hop Suomirap"@),
        ("HIPHOP TRAP 1"@, "Hip-Hop Trap"@),
        ("HIPHOP TRAP POP"@, "Hip-Hop Trap"@),
        ("HIPHOP TRAP"@, "Hip-Hop Trap"@),
        ("HIPHOP"@, "Hip-Hop"@),
        ("HOUSE 1"@, "House"@),
        ("HOUSE ACID"@, "House Acid"@),
        ("HOUSE AFRO 1"@, "House Afro"@),
        ("HOUSE AFRO AMAPIANO"@, "Amapiano"@),
        ("HOUSE AFRO BEATS"@, "Afrobeats"@),
        ("HOUSE AFRO JAM"@, "House Afro"@),
        ("HOUSE AFRO LATIN CLUB"@, "House Latin"@),
        ("HOUSE AFRO LATIN"@, "House Latin"@),
        ("HOUSE AFRO POP"@, "House Afro"@),
        ("HOUSE AFRO TRIBAL CLUB"@, "House Tribal"@),
        ("HOUSE AFRO TRIBAL JAM"@, "House Tribal"@),
        ("HOUSE AFRO TRIBAL"@, "House Tribal"@),
        ("HOUSE AFRO"@, "House Afro"@),
        ("HOUSE BAILE FUNK POP"@, "Baile Funk"@),
        ("HOUSE BAILE FUNK"@, "Baile Funk"@),
        ("HOUSE BALTIMORE"@, "Baltimore Club"@),
        ("HOUSE BASS 1"@, "House"@),
        ("HOUSE BASS CLUB"@, "House"@),
        ("HOUSE BASS FUTURE"@, "House Future"@),
        ("HOUSE BASS POP"@, "House"@),
        ("HOUSE BASS UG 1"@, "House"@),
        ("HOUSE BASS UG"@, "House"@),
        ("HOUSE BASS"@, "House"@),
        ("HOUSE BIG ROOM"@, "House"@),
        ("HOUSE BOOGIE"@, "House"@),
        ("HOUSE BREAKBEAT"@, "Breakbeat"@),
        ("HOUSE BROKEN BEAT"@, "Broken Beat"@),
        ("HOUSE CHILL 1"@, "House"@),
        ("HOUSE CHILL AMBIENT"@, "House"@),
        ("HOUSE CHILL"@, "House"@),
        ("HOUSE DEEP 1"@, "House Deep"@),
        ("HOUSE DEEP BASS 1"@, "House Deep"@),
        ("HOUSE DEEP BASS"@, "House Deep"@),
        ("HOUSE DEEP CHILL 1"@, "House Deep"@),
        ("HOUSE DEEP JAM 1"@, "House Deep"@),
        ("HOUSE DEEP JAM"@, "House Deep"@),
        ("HOUSE DEEP OLD 1"@, "House Deep"@),
        ("HOUSE DEEP OLD JAM 1"@, "House Deep"@),
        ("HOUSE DEEP OLD JAM"@, "House Deep"@),
        ("HOUSE DEEP OLD"@, "House Deep"@),
        ("HOUSE DEEP RAW"@, "House Deep"@),
        ("HOUSE DEEP TECH 1"@, "House Deep"@),
        ("HOUSE DEEP TECH"@, "House Deep"@),
        ("HOUSE DEEP VOGUE"@, "House Deep"@),
        ("HOUSE DEEP"@, "House Deep"@),
        ("HOUSE DISCO 1"@, "House Disco"@),
        ("HOUSE DISCO JAM"@, "House Disco"@),
        ("HOUSE DISCO"@, "House Disco"@),
        ("HOUSE ELECTRO"@, "House Electro"@),
        ("HOUSE ELECTRONICA"@, "House"@),
        ("HOUSE EURODANCE"@, "Eurodance"@),
        ("HOUSE FUNKY JAM"@, "House Funky"@),
        ("HOUSE FUNKY"@, "House Funky"@),
        ("HOUSE JAM CHILL"@, "House"@),
        ("HOUSE JAM"@, "House"@),
        ("HOUSE JAZZY"@, "House"@),
        ("HOUSE MAINSTREAM INSTRUMENTAL"@, "House"@),
        ("HOUSE MAINSTREAM"@, "House"@),
        ("HOUSE MINIMAL"@, "House"@),
        ("HOUSE MOOMBAHTON"@, "Moombahton"@),
        ("HOUSE OLD SCHOOL 1"@, "House"@),
        ("HOUSE OLD SCHOOL CHILL"@, "House"@),
        ("HOUSE OLD SCHOOL DISCO"@, "House"@),
        ("HOUSE OLD SCHOOL HIP"@, "House"@),
        ("HOUSE OLD SCHOOL JAM"@, "House"@),
        ("HOUSE OLD SCHOOL POP"@, "House"@),
        ("HOUSE OLD SCHOOL REMIX"@, "House"@),
        ("HOUSE OLD SCHOOL VOGUE"@, "House"@),
        ("HOUSE OLD SCHOOL"@, "House"@),
        ("HOUSE PIANO"@, "House"@),
        ("HOUSE POP CLUB INSTRUMENTAL"@, "House"@),
        ("HOUSE POP CLUB"@, "House"@),
        ("HOUSE PROGRESSIVE CLUB"@, "House Progressive"@),
        ("HOUSE PROGRESSIVE"@, "House Progressive"@),
        ("HOUSE RAVE NU"@, "Rave"@),
        ("HOUSE RAVE OLD SCHOOL"@, "Rave"@),
        ("HOUSE RAVE"@, "House"@),
        ("HOUSE REMIX"@, "House"@),
        ("HOUSE SOULFUL CHILL"@, "House Soulful"@),
        ("HOUSE SOULFUL VOCAL"@, "House Soulful"@),
        ("HOUSE SOULFUL"@, "House Soulful"@),
        ("HOUSE TECH 1"@, "House Tech"@),
        ("HOUSE TECH CLUB"@, "House Tech"@),
        ("HOUSE TECH DARK 1"@, "House Tech"@),
        ("HOUSE TECH DARK"@, "House Tech"@),
        ("HOUSE TECH JAM"@, "House Tech"@),
        ("HOUSE TECH VOGUE 1"@, "House Tech"@),
        ("HOUSE TECH VOGUE"@, "House Tech"@),
        ("HOUSE TECH"@, "House Tech"@),
        ("HOUSE TECHNO DEEP"@, "Techno"@),
        ("HOUSE TECHNO OLD SCHOOL"@, "Techno"@),
        ("HOUSE TECHNO"@, "Techno"@),
        ("HOUSE TRANCE"@, "Trance"@),
        ("HOUSE UK BEATS"@, "Electronic"@),
        ("HOUSE UK FUNKY"@, "UK Funky"@),
        ("HOUSE UK GARAGE"@, "UK Garage"@),
        ("HOUSE VOGUE BEATS 1"@, "Vogue Beats"@),
        ("HOUSE VOGUE BEATS ARMS HANDS"@, "Vogue Beats"@),
        ("HOUSE VOGUE BEATS CLUB"@, "Vogue Beats"@),
        ("HOUSE VOGUE BEATS DEEP"@, "Vogue Beats"@),
        ("HOUSE VOGUE BEATS HARD"@, "Vogue Beats"@),
        ("HOUSE VOGUE BEATS RUNWAY"@, "Vogue Beats"@),
        ("HOUSE VOGUE BEATS"@, "Vogue Beats"@),
        ("HOUSE VOGUE FEMME 1"@, "Vogue Beats"@),
        ("HOUSE VOGUE FEMME VOCAL"@, "Vogue Beats"@),
        ("HOUSE VOGUE FEMME"@, "Vogue Beats"@),
        ("HOUSE VOGUE JERSEY CLUB"@, "Jersey Club"@),
        ("HOUSE VOGUE NEW WAY"@, "House"@),
        ("HOUSE VOGUE OLD WAY"@, "House"@),
        ("HOUSE VOGUE"@, "House"@),
        ("HOUSE"@, "House"@),
        ("INDIE DANCE"@, "Indie Dance"@),
        ("INDIE ELECTRO"@, "Electro"@),
        ("INDIE SYNTHWAVE 1"@, "Synthwave"@),
        ("INDIE SYNTHWAVE"@, "Synthwave"@),
        ("JAZZ"@, "Jazz"@),
        ("LATIN CLUB"@, "Latin"@),
        ("LATIN EDIT"@, "Latin"@),
        ("LATIN"@, "Latin"@),
        ("POP 00s"@, "Pop"@),
        ("POP 1"@, "Pop"@),
        ("POP 80s SYNTH"@, "Pop 80s"@),
        ("POP 80s"@, "Pop 80s"@),
        ("POP 90s EURODANCE"@, "House Eurodance"@),
        ("POP 90s"@, "Pop 90s"@),
        ("POP CHILL 1"@, "Pop"@),
        ("POP CHILL HITAAT"@, "Pop"@),
        ("POP CHILL"@, "Pop"@),
        ("POP CLASSICAL"@, "Classical"@),
        ("POP EDITS"@, "Pop"@),
        ("POP INSTRUMENTAL"@, "Pop"@),
        ("POP MAINSTREAM INSTRUMENTAL"@, "Pop"@),
        ("POP MAINSTREAM"@, "Pop"@),
        ("POP MASHUP"@, "Pop"@),
        ("POP RANDOM"@, "Pop"@),
        ("POP SUOMI"@, "Pop Suomi"@),
        ("POP SYNTH"@, "Pop"@),
        ("POP"@, "Pop"@),
        ("REGGAE"@, "Reggae"@),
        ("ROCK MASHUP"@, "Rock"@),
        ("ROCK"@, "Rock"@),
    ]
}

fn genre_mappings_table() -> (t: Vec<(&'static str, &'static str)>)
    ensures
        pairs_view(t@) == genre_mappings(),
{
    let t = vec![
        ("DISCO 1", "Disco"),
        ("DISCO CLASSICS", "Disco"),
        ("DISCO EDITS 1", "Disco"),
        ("DISCO EDITS WAACKING", "Disco"),
        ("DISCO EDITS", "Disco"),
        ("DISCO ELECTRO", "Electro"),
        ("DISCO HI-NRG", "Disco Hi-NRG"),
        ("DISCO ITALO", "Disco Italo"),
        ("DISCO JAM 1", "Disco"),
        ("DISCO JAM", "Disco"),
        ("DISCO", "Disco"),
        ("DRUM&BASS CHILL", "Drum & Bass"),
        ("DRUM&BASS DARK", "Drum & Bass"),
        ("DRUM&BASS EDITS", "Drum & Bass"),
        ("DRUM&BASS POP", "Drum & Bass"),
        ("DRUM&BASS", "Drum & Bass"),
        ("DUBSTEP", "Dubstep"),
        ("ELECTRONICA CHILL", "Electronica"),
        ("ELECTRONICA", "Electronica"),
        ("FUNK 80s 1", "Funk 80s"),
        ("FUNK 80s", "Funk 80s"),
        ("FUNK BOOGIE 1", "Funk Boogie"),
        ("FUNK BOOGIE EDITS 1", "Funk Boogie"),
        ("FUNK BOOGIE EDITS", "Funk Boogie"),
        ("FUNK BOOGIE JAM", "Funk Boogie"),
        ("FUNK BOOGIE POP", "Funk Boogie"),
        ("FUNK BOOGIE", "Funk Boogie"),
        ("FUNK BREAKS 1", "Funk Breaks"),
        ("FUNK BREAKS CHILL", "Funk Breaks"),
        ("FUNK BREAKS EDITS", "Funk Breaks"),
        ("FUNK BREAKS JAM", "Funk Breaks"),
        ("FUNK BREAKS TOP ROCK 1", "Funk Breaks"),
        ("FUNK BREAKS TOP ROCK", "Funk Breaks"),
        ("FUNK BREAKS", "Funk Breaks"),
        ("FUNK CHILL 1", "Funk"),
        ("FUNK CHILL", "Funk"),
        ("FUNK CLASSICS 1", "Funk"),
        ("FUNK CLASSICS", "Funk"),
        ("FUNK EDITS 1", "Funk"),
        ("FUNK EDITS 80s", "Funk"),
        ("FUNK EDITS BATTLE", "Funk"),
        ("FUNK EDITS CHILL 1", "Funk"),
        ("FUNK EDITS CHILL", "Funk"),
        ("FUNK EDITS CLASSICS", "Funk"),
        ("FUNK EDITS JAM 1", "Funk"),
        ("FUNK EDITS JAM", "Funk"),
        ("FUNK EDITS", "Funk"),
        ("FUNK JAM 1", "Funk"),
        ("FUNK JAM CHILL", "Funk"),
        ("FUNK JAM", "Funk"),
        ("FUNK LOVE 1", "Funk"),
        ("FUNK LOVE CHILL", "Funk"),
        ("FUNK LOVE HITAAT", "Funk"),
        ("FUNK LOVE", "Funk"),
        ("FUNK MASHUP", "Funk"),
        ("FUNK PARTY 1", "Funk"),
        ("FUNK PARTY", "Funk"),
        ("FUNK SAMPLE", "Funk"),
        ("FUNK", "Funk"),
        ("FUNKY 1", "Funk"),
        ("FUNKY AFRO & LATIN", "Latin"),
        ("FUNKY BOOGIE 1", "Funk Boogie"),
        ("FUNKY BOOGIE JAM", "Funk Boogie"),
        ("FUNKY BOOGIE", "Funk Boogie"),
        ("FUNKY BREAKS BATTLE", "Funk Breaks"),
        ("FUNKY BREAKS CHILL", "Funk Breaks"),
        ("FUNKY BREAKS GHETTOFUNK", "Ghettofunk"),
        ("FUNKY BREAKS JAM 1", "Funk Breaks"),
        ("FUNKY BREAKS JAM", "Funk Breaks"),
        ("FUNKY BREAKS LATIN", "Funk Breaks"),
        ("FUNKY BREAKS PARTY", "Funk Breaks"),
        ("FUNKY BREAKS RAP JAM", "Funk Breaks"),
        ("FUNKY BREAKS RAP", "Funk Breaks"),
        ("FUNKY BREAKS REGGAE", "Funk Breaks"),
        ("FUNKY BREAKS", "Funk Breaks"),
        ("FUNKY CHILL", "Funk"),
        ("FUNKY JAM 1", "Disco Nu"),
        ("FUNKY JAM CHILL", "Disco Nu"),
        ("FUNKY JAM", "Disco Nu"),
        ("FUNKY NU DISCO", "Disco Nu"),
        ("FUNKY POP 1", "Funk"),
        ("FUNKY POP", "Funk"),
        ("FUNKY", "Funk"),
        ("HIPHOP 1", "Hip-Hop"),
        ("HIPHOP AFRO BEATS INSTRUMENTAL", "Afrobeats"),
        ("HIPHOP AFRO BEATS", "Afrobeats"),
        ("HIPHOP BATTLE 1", "Hip-Hop"),
        ("HIPHOP BATTLE 90s", "Hip-Hop 90s"),
        ("HIPHOP BATTLE BREAKS", "Hip-Hop"),
        ("HIPHOP BATTLE CLUB", "Hip-Hop"),
        ("HIPHOP BATTLE INSTRUMENTAL", "Hip-Hop"),
        ("HIPHOP BATTLE NEW", "Hip-Hop"),
        ("HIPHOP BATTLE POPPING INSTRUMENTAL", "Hip-Hop"),
        ("HIPHOP BATTLE POPPING", "Hip-Hop"),
        ("HIPHOP BATTLE TRAP", "Hip-Hop Trap"),
        ("HIPHOP BATTLE", "Hip-Hop"),
        ("HIPHOP BEATS 1", "Hip-Hop"),
        ("HIPHOP BEATS BATTLE 1", "Hip-Hop"),
        ("HIPHOP BEATS BATTLE", "Hip-Hop"),
        ("HIPHOP BEATS CHILL", "Hip-Hop"),
        ("HIPHOP BEATS ELECTRO", "Hip-Hop"),
        ("HIPHOP BEATS GLITCH", "Glitch Hop"),
        ("HIPHOP BEATS JAM 1", "Hip-Hop"),
        ("HIPHOP BEATS JAM", "Hip-Hop"),
        ("HIPHOP BEATS POPPING JAM", "Hip-Hop"),
        ("HIPHOP BEATS POPPING", "Hip-Hop"),
        ("HIPHOP BEATS TRAP", "Hip-Hop Trap"),
        ("HIPHOP BEATS", "Hip-Hop"),
        ("HIPHOP CHILL 1", "Hip-Hop"),
        ("HIPHOP CHILL", "Hip-Hop"),
        ("HIPHOP CLUB", "Hip-Hop"),
        ("HIPHOP DANCEHALL", "Dancehall"),
        ("HIPHOP ELECTRO", "Electro"),
        ("HIPHOP FUTURE BASS", "Hip-Hop"),
        ("HIPHOP G-FUNK", "Hip-Hop G-Funk"),
        ("HIPHOP INSTRUMENTAL 1", "Hip-Hop"),
        ("HIPHOP INSTRUMENTAL 90s", "Hip-Hop 90s"),
        ("HIPHOP INSTRUMENTAL BREAKS", "Hip-Hop"),
        ("HIPHOP INSTRUMENTAL CHILL", "Hip-Hop"),
        ("HIPHOP INSTRUMENTAL CLUB", "Hip-Hop"),
        ("HIPHOP INSTRUMENTAL G-FUNK", "Hip-Hop G-Funk"),
        ("HIPHOP INSTRUMENTAL JAM 1", "Hip-Hop"),
        ("HIPHOP INSTRUMENTAL JAM", "Hip-Hop"),
        ("HIPHOP INSTRUMENTAL PARTY", "Hip-Hop"),
        ("HIPHOP INSTRUMENTAL POP", "Hip-Hop"),
        ("HIPHOP INSTRUMENTAL RNB", "R&B"),
        ("HIPHOP INSTRUMENTAL SUOMIRAP", "Hip-Hop Suomirap"),
        ("HIPHOP INSTRUMENTAL", "Hip-Hop"),
        ("HIPHOP JAM 1", "Hip-Hop"),
        ("HIPHOP JAM 90s", "Hip-Hop 90s"),
        ("HIPHOP JAM BREAKS", "Hip-Hop"),
        ("HIPHOP JAM CHILL", "Hip-Hop"),
        ("HIPHOP JAM EDITS", "Hip-Hop"),
        ("HIPHOP JAM G-FUNK", "Hip-Hop G-Funk"),
        ("HIPHOP JAM NEW", "Hip-Hop"),
        ("HIPHOP JAM", "Hip-Hop"),
        ("HIPHOP JERSEY CLUB", "Jersey Club"),
        ("HIPHOP NEW JACK SWING 1", "New Jack Swing"),
        ("HIPHOP NEW JACK SWING CHILL", "New Jack Swing"),
        ("HIPHOP NEW JACK SWING", "New Jack Swing"),
        ("HIPHOP OLD SCHOOL", "Hip-Hop"),
        ("HIPHOP PARTY 1", "Hip-Hop"),
        ("HIPHOP PARTY 90s", "Hip-Hop 90s"),
        ("HIPHOP PARTY BREAKS", "Hip-Hop"),
        ("HIPHOP PARTY", "Hip-Hop"),
        ("HIPHOP RNB 1", "R&B"),
        ("HIPHOP RNB 90s", "R&B"),
        ("HIPHOP RNB CHILL 1", "R&B"),
        ("HIPHOP RNB CHILL", "R&B"),
        ("HIPHOP RNB CLUB", "R&B"),
        ("HIPHOP RNB EDITS", "R&B"),
        ("HIPHOP RNB", "R&B"),
        ("HIPHOP SAMPLE", "Hip-Hop"),
        ("HIPHOP SUOMIRAP 1", "Hip-Hop Suomirap"),
        ("HIPHOP SUOMIRAP LOPETUS", "Hip-Hop Suomirap"),
        ("HIPHOP SUOMIRAP", "Hip-Hop Suomirap"),
        ("HIPHOP TRAP 1", "Hip-Hop Trap"),
        ("HIPHOP TRAP POP", "Hip-Hop Trap"),
        ("HIPHOP TRAP", "Hip-Hop Trap"),
        ("HIPHOP", "Hip-Hop"),
        ("HOUSE 1", "House"),
        ("HOUSE ACID", "House Acid"),
        ("HOUSE AFRO 1", "House Afro"),
        ("HOUSE AFRO AMAPIANO", "Amapiano"),
        ("HOUSE AFRO BEATS", "Afrobeats"),
        ("HOUSE AFRO JAM", "House Afro"),
        ("HOUSE AFRO LATIN CLUB", "House Latin"),
        ("HOUSE AFRO LATIN", "House Latin"),
        ("HOUSE AFRO POP", "House Afro"),
        ("HOUSE AFRO TRIBAL CLUB", "House Tribal"),
        ("HOUSE AFRO TRIBAL JAM", "House Tribal"),
        ("HOUSE AFRO TRIBAL", "House Tribal"),
        ("HOUSE AFRO", "House Afro"),
        ("HOUSE BAILE FUNK POP", "Baile Funk"),
        ("HOUSE BAILE FUNK", "Baile Funk"),
        ("HOUSE BALTIMORE", "Baltimore Club"),
        ("HOUSE BASS 1", "House"),
        ("HOUSE BASS CLUB", "House"),
        ("HOUSE BASS FUTURE", "House Future"),
        ("HOUSE BASS POP", "House"),
        ("HOUSE BASS UG 1", "House"),
        ("HOUSE BASS UG", "House"),
        ("HOUSE BASS", "House"),
        ("HOUSE BIG ROOM", "House"),
        ("HOUSE BOOGIE", "House"),
        ("HOUSE BREAKBEAT", "Breakbeat"),
        ("HOUSE BROKEN BEAT", "Broken Beat"),
        ("HOUSE CHILL 1", "House"),
        ("HOUSE CHILL AMBIENT", "House"),
        ("HOUSE CHILL", "House"),
        ("HOUSE DEEP 1", "House Deep"),
        ("HOUSE DEEP BASS 1", "House Deep"),
        ("HOUSE DEEP BASS", "House Deep"),
        ("HOUSE DEEP CHILL 1", "House Deep"),
        ("HOUSE DEEP JAM 1", "House Deep"),
        ("HOUSE DEEP JAM", "House Deep"),
        ("HOUSE DEEP OLD 1", "House Deep"),
        ("HOUSE DEEP OLD JAM 1", "House Deep"),
        ("HOUSE DEEP OLD JAM", "House Deep"),
        ("HOUSE DEEP OLD", "House Deep"),
        ("HOUSE DEEP RAW", "House Deep"),
        ("HOUSE DEEP TECH 1", "House Deep"),
        ("HOUSE DEEP TECH", "House Deep"),
        ("HOUSE DEEP VOGUE", "House Deep"),
        ("HOUSE DEEP", "House Deep"),
        ("HOUSE DISCO 1", "House Disco"),
        ("HOUSE DISCO JAM", "House Disco"),
        ("HOUSE DISCO", "House Disco"),
        ("HOUSE ELECTRO", "House Electro"),
        ("HOUSE ELECTRONICA", "House"),
        ("HOUSE EURODANCE", "Eurodance"),
        ("HOUSE FUNKY JAM", "House Funky"),
        ("HOUSE FUNKY", "House Funky"),
        ("HOUSE JAM CHILL", "House"),
        ("HOUSE JAM", "House"),
        ("HOUSE JAZZY", "House"),
        ("HOUSE MAINSTREAM INSTRUMENTAL", "House"),
        ("HOUSE MAINSTREAM", "House"),
        ("HOUSE MINIMAL", "House"),
        ("HOUSE MOOMBAHTON", "Moombahton"),
        ("HOUSE OLD SCHOOL 1", "House"),
        ("HOUSE OLD SCHOOL CHILL", "House"),
        ("HOUSE OLD SCHOOL DISCO", "House"),
        ("HOUSE OLD SCHOOL HIP", "House"),
        ("HOUSE OLD SCHOOL JAM", "House"),
        ("HOUSE OLD SCHOOL POP", "House"),
        ("HOUSE OLD SCHOOL REMIX", "House"),
        ("HOUSE OLD SCHOOL VOGUE", "House"),
        ("HOUSE OLD SCHOOL", "House"),
        ("HOUSE PIANO", "House"),
        ("HOUSE POP CLUB INSTRUMENTAL", "House"),
        ("HOUSE POP CLUB", "House"),
        ("HOUSE PROGRESSIVE CLUB", "House Progressive"),
        ("HOUSE PROGRESSIVE", "House Progressive"),
        ("HOUSE RAVE NU", "Rave"),
        ("HOUSE RAVE OLD SCHOOL", "Rave"),
        ("HOUSE RAVE", "House"),
        ("HOUSE REMIX", "House"),
        ("HOUSE SOULFUL CHILL", "House Soulful"),
        ("HOUSE SOULFUL VOCAL", "House Soulful"),
        ("HOUSE SOULFUL", "House Soulful"),
        ("HOUSE TECH 1", "House Tech"),
        ("HOUSE TECH CLUB", "House Tech"),
        ("HOUSE TECH DARK 1", "House Tech"),
        ("HOUSE TECH DARK", "House Tech"),
        ("HOUSE TECH JAM", "House Tech"),
        ("HOUSE TECH VOGUE 1", "House Tech"),
        ("HOUSE TECH VOGUE", "House Tech"),
        ("HOUSE TECH", "House Tech"),
        ("HOUSE TECHNO DEEP", "Techno"),
        ("HOUSE TECHNO OLD SCHOOL", "Techno"),
        ("HOUSE TECHNO", "Techno"),
        ("HOUSE TRANCE", "Trance"),
        ("HOUSE UK BEATS", "Electronic"),
        ("HOUSE UK FUNKY", "UK Funky"),
        ("HOUSE UK GARAGE", "UK Garage"),
        ("HOUSE VOGUE BEATS 1", "Vogue Beats"),
        ("HOUSE VOGUE BEATS ARMS HANDS", "Vogue Beats"),
        ("HOUSE VOGUE BEATS CLUB", "Vogue Beats"),
        ("HOUSE VOGUE BEATS DEEP", "Vogue Beats"),
        ("HOUSE VOGUE BEATS HARD", "Vogue Beats"),
        ("HOUSE VOGUE BEATS RUNWAY", "Vogue Beats"),
        ("HOUSE VOGUE BEATS", "Vogue Beats"),
        ("HOUSE VOGUE FEMME 1", "Vogue Beats"),
        ("HOUSE VOGUE FEMME VOCAL", "Vogue Beats"),
        ("HOUSE VOGUE FEMME", "Vogue Beats"),
        ("HOUSE VOGUE JERSEY CLUB", "Jersey Club"),
        ("HOUSE VOGUE NEW WAY", "House"),
        ("HOUSE VOGUE OLD WAY", "House"),
        ("HOUSE VOGUE", "House"),
        ("HOUSE", "House"),
        ("INDIE DANCE", "Indie Dance"),
        ("INDIE ELECTRO", "Electro"),
        ("INDIE SYNTHWAVE 1", "Synthwave"),
        ("INDIE SYNTHWAVE", "Synthwave"),
        ("JAZZ", "Jazz"),
        ("LATIN CLUB", "Latin"),
        ("LATIN EDIT", "Latin"),
        ("LATIN", "Latin"),
        ("POP 00s", "Pop"),
        ("POP 1", "Pop"),
        ("POP 80s SYNTH", "Pop 80s"),
        ("POP 80s", "Pop 80s"),
        ("POP 90s EURODANCE", "House Eurodance"),
        ("POP 90s", "Pop 90s"),
        ("POP CHILL 1", "Pop"),
        ("POP CHILL HITAAT", "Pop"),
        ("POP CHILL", "Pop"),
        ("POP CLASSICAL", "Classical"),
        ("POP EDITS", "Pop"),
        ("POP INSTRUMENTAL", "Pop"),
        ("POP MAINSTREAM INSTRUMENTAL", "Pop"),
        ("POP MAINSTREAM", "Pop"),
        ("POP MASHUP", "Pop"),
        ("POP RANDOM", "Pop"),
        ("POP SUOMI", "Pop Suomi"),
        ("POP SYNTH", "Pop"),
        ("POP", "Pop"),
        ("REGGAE", "Reggae"),
        ("ROCK MASHUP", "Rock"),
        ("ROCK", "Rock"),
    ];
    assert(pairs_view(t@) =~= genre_mappings());
    t
}

/// Plain-text substitutions for genres.
pub open spec fn genre_common_substitutes() -> Seq<(Seq<char>, Seq<char>)> {
    seq![
        ("\0"@, "/"@),
        ("`"@, "'"@),
        ("´"@, "'"@),
        (" ,"@, ","@),
        ("\\"@, "/"@),
        ("/"@, " / "@),
        ("\u{FFFD}"@, " "@),
    ]
}

fn genre_common_substitutes_table() -> (t: Vec<(&'static str, &'static str)>)
    ensures
        pairs_view(t@) == genre_common_substitutes(),
{
    let t = vec![
        ("\0", "/"),
        ("`", "'"),
        ("´", "'"),
        (" ,", ","),
        ("\\", "/"),
        ("/", " / "),
        ("\u{FFFD}", " "),
    ];
    assert(pairs_view(t@) =~= genre_common_substitutes());
    t
}

/// Regular-expression substitutions for brackets and spacing in genres.
pub open spec fn genre_regex_substitutes() -> Seq<(Seq<char>, Seq<char>)> {
    seq![
        ("[\\[{]+"@, "("@),
        ("[]}]+"@, ")"@),
        ("\\(\\s*\\){2,}"@, "("@),
        ("\\)\\s*\\){2,}"@, ")"@),
        ("\\s{2,}"@, " "@),
    ]
}

fn genre_regex_substitutes_table() -> (t: Vec<(&'static str, &'static str)>)
    ensures
        pairs_view(t@) == genre_regex_substitutes(),
{
    let t = vec![
        ("[\\[{]+", "("),
        ("[]}]+", ")"),
        ("\\(\\s*\\){2,}", "("),
        ("\\)\\s*\\){2,}", ")"),
        ("\\s{2,}", " "),
    ];
    assert(pairs_view(t@) =~= genre_regex_substitutes());
    t
}

/// Regular-expression mappings of genre names to their preferred form.
pub open spec fn genre_regex_mappings() -> Seq<(Seq<char>, Seq<char>)> {
    seq![
        ("(?i)\\br\\s*[&'n]*\\s*b\\b"@, "R&B"@),
        ("(?i)\\bother\\b"@, ""@),
        ("(?i)\\bAccapella\\b"@, "Acapella"@),
        ("(?i)\\bHip Hop\\b"@, "Hip-Hop"@),
        ("(?i)\\bHip / Hop\\b"@, "Hip-Hop"@),
        ("(?i)\\bHip-Hop 90's\\b"@, "Hip-Hop 90s"@),
        ("(?i)\\bHip-Hop 80's\\b"@, "Hip-Hop 80s"@),
        ("(?i)\\bHip-Hop 90$"@, "Hip-Hop 90s"@),
        ("(?i)\\bHip-Hop 80$"@, "Hip-Hop 80s"@),
        ("(?i)\\b90's Hip-Hop\\b"@, "Hip-Hop 90s"@),
        ("(?i)\\b80's Hip-Hop\\b"@, "Hip-Hop 80s"@),
        ("(?i)\\bHip-Hop / Rap\\b"@, "Hip-Hop"@),
        ("(?i)\\bRap & Hip-Hop\\b"@, "Hip-Hop"@),
        ("(?i)^Rap$"@, "Hip-Hop"@),
        ("(?i)\\bNu Disco / Disco\\b"@, "Disco Nu"@),
        ("(?i)\\bSoul / Funk / Disco\\b"@, "Funk"@),
        ("(?i)\\bFunk / Soul\\b"@, "Soul"@),
        ("(?i)\\bSoul / Funk\\b"@, "Soul"@),
        ("(?i)\\bAfro beats\\b"@, "Afrobeats"@),
        ("(?i)\\bblend\\b"@, "Mashup"@),
        ("(?i)\\bDrum 'n' Bass\\b"@, "Drum & Bass"@),
        ("(?i)\\bD'n'B\\b"@, "Drum & Bass"@),
        ("(?i)\\bD&B\\b"@, "Drum & Bass"@),
        ("(?i)\\bDisco, Funk\\b"@, "Disco"@),
        ("(?i)\\bDisco Funk\\b"@, "Disco"@),
        ("(?i)\\bFunk / Boogie\\b"@, "Funk Boogie"@),
        ("(?i)\\bHouse / Funk\\b"@, "House"@),
        ("(?i)\\bHousemusic\\b"@, "House"@),
        ("(?i)^House, Deep House\\b"@, "House Deep"@),
        ("(?i)^West Coast$"@, "Hip-Hop West Coast"@),
        ("(?i)^West Coast, Hip-Hop$"@, "Hip-Hop West Coast"@),
        ("(?i)^Dance, Electro Pop$"@, "Dance"@),
        ("(?i)^90s X Golden Era$"@, "Hip-Hop 90s"@),
        ("(?i)\\bB-more\\b"@, "Baltimore Club"@),
        ("(?i)\\bBmore\\b"@, "Baltimore Club"@),
        ("(?i)\\bBreaks, Funk\\b"@, "Funk Breaks"@),
        ("(?i)\\bClassic House\\b"@, "House Old School"@),
        ("(?i)\\bHouse Classic\\b"@, "House Old School"@),
        ("(?i)^Italo$"@, "Disco Italo"@),
        ("(?i)\\b70's\\b"@, "70s"@),
        ("(?i)\\b80's\\b"@, "80s"@),
        ("(?i)\\b90's\\b"@, "90s"@),
    ]
}

fn genre_regex_mappings_table() -> (t: Vec<(&'static str, &'static str)>)
    ensures
        pairs_view(t@) == genre_regex_mappings(),
{
    let t = vec![
        ("(?i)\\br\\s*[&'n]*\\s*b\\b", "R&B"),
        ("(?i)\\bother\\b", ""),
        ("(?i)\\bAccapella\\b", "Acapella"),
        ("(?i)\\bHip Hop\\b", "Hip-Hop"),
        ("(?i)\\bHip / Hop\\b", "Hip-Hop"),
        ("(?i)\\bHip-Hop 90's\\b", "Hip-Hop 90s"),
        ("(?i)\\bHip-Hop 80's\\b", "Hip-Hop 80s"),
        ("(?i)\\bHip-Hop 90$", "Hip-Hop 90s"),
        ("(?i)\\bHip-Hop 80$", "Hip-Hop 80s"),
        ("(?i)\\b90's Hip-Hop\\b", "Hip-Hop 90s"),
        ("(?i)\\b80's Hip-Hop\\b", "Hip-Hop 80s"),
        ("(?i)\\bHip-Hop / Rap\\b", "Hip-Hop"),
        ("(?i)\\bRap & Hip-Hop\\b", "Hip-Hop"),
        ("(?i)^Rap$", "Hip-Hop"),
        ("(?i)\\bNu Disco / Disco\\b", "Disco Nu"),
        ("(?i)\\bSoul / Funk / Disco\\b", "Funk"),
        ("(?i)\\bFunk / Soul\\b", "Soul"),
        ("(?i)\\bSoul / Funk\\b", "Soul"),
        ("(?i)\\bAfro beats\\b", "Afrobeats"),
        ("(?i)\\bblend\\b", "Mashup"),
        ("(?i)\\bDrum 'n' Bass\\b", "Drum & Bass"),
        ("(?i)\\bD'n'B\\b", "Drum & Bass"),
        ("(?i)\\bD&B\\b", "Drum & Bass"),
        ("(?i)\\bDisco, Funk\\b", "Disco"),
        ("(?i)\\bDisco Funk\\b", "Disco"),
        ("(?i)\\bFunk / Boogie\\b", "Funk Boogie"),
        ("(?i)\\bHouse / Funk\\b", "House"),
        ("(?i)\\bHousemusic\\b", "House"),
        ("(?i)^House, Deep House\\b", "House Deep"),
        ("(?i)^West Coast$", "Hip-Hop West Coast"),
        ("(?i)^West Coast, Hip-Hop$", "Hip-Hop West Coast"),
        ("(?i)^Dance, Electro Pop$", "Dance"),
        ("(?i)^90s X Golden Era$", "Hip-Hop 90s"),
        ("(?i)\\bB-more\\b", "Baltimore Club"),
        ("(?i)\\bBmore\\b", "Baltimore Club"),
        ("(?i)\\bBreaks, Funk\\b", "Funk Breaks"),
        ("(?i)\\bClassic House\\b", "House Old School"),
        ("(?i)\\bHouse Classic\\b", "House Old School"),
        ("(?i)^Italo$", "Disco Italo"),
        ("(?i)\\b70's\\b", "70s"),
        ("(?i)\\b80's\\b", "80s"),
        ("(?i)\\b90's\\b", "90s"),
    ];
    assert(pairs_view(t@) =~= genre_regex_mappings());
    t
}


/// The value of the first pair whose key is `key`.
pub open spec fn lookup(t: Seq<(Seq<char>, Seq<char>)>, key: Seq<char>) -> Option<Seq<char>>
    decreases t.len(),
{
    if t.len() == 0 {
        None
    } else if t[0].0 == key {
        Some(t[0].1)
    } else {
        lookup(t.drop_first(), key)
    }
}

/// The default genre for tracks in a folder with the given name, where there is one.
pub fn genre_for_directory(directory: &str) -> (r: Option<String>)
    ensures
        r matches Some(g) ==> lookup(genre_mappings(), directory@) == Some(g@),
        r is None ==> lookup(genre_mappings(), directory@) is None,
{
    let t = genre_mappings_table();
    let ghost m = genre_mappings();
    let d = to_chars(directory);
    let mut i: usize = 0;
    assert(m.skip(0) =~= m);
    while i < t.len()
        invariant
            i <= t@.len(),
            d@ == directory@,
            m == genre_mappings(),
            pairs_view(t@) == m,
            lookup(m, directory@) == lookup(m.skip(i as int), directory@),
        decreases t.len() - i,
    {
        let (k, v) = t[i];
        assert(m.skip(i as int)[0] == (k@, v@));
        assert(m.skip(i as int).drop_first() =~= m.skip(i + 1));
        if chars_eq(&to_chars(k), &d) {
            return Some(v.to_string());
        }
        i += 1;
    }
    assert(m.skip(i as int) =~= Seq::<(Seq<char>, Seq<char>)>::empty());
    None
}

/// A genre of words that ends in `House` and has no comma.
pub const RE_HOUSE: &'static str = "^[^,]* House$";

/// `Tech House` becomes `House Tech`: the last word moves to the front.
pub open spec fn spec_reorder_house_genres(g: Seq<char>) -> Seq<char> {
    if regex_matches(RE_HOUSE@, g) {
        match rfind_char(g, ' ') {
            Some(k) => g.skip(k + 1) + " "@ + g.take(k),
            None => g + " "@,
        }
    } else {
        g
    }
}

/// Reorder house genres to start with "House": "Tech House" becomes "House Tech".
pub fn reorder_house_genres(genre: &mut String)
    ensures
        final(genre)@ == spec_reorder_house_genres(old(genre)@),
{
    if regex_is_match(RE_HOUSE, genre.as_str()) {
        let g = to_chars(genre.as_str());
        proof {
            crate::paths::lemma_rfind_char(g@, ' ');
        }
        let space = to_chars(" ");
        match rfind_char_exec(&g, ' ') {
            Some(k) => {
                let last = slice_copy(&g, k + 1, g.len());
                let rest = slice_copy(&g, 0, k);
                assert(g@.subrange(k + 1, g@.len() as int) =~= g@.skip(k + 1));
                *genre = from_chars(&concat(&concat(&last, &space), &rest));
            },
            None => {
                *genre = from_chars(&concat(&g, &space));
            },
        }
    }
}

/// The normalized genre.
pub open spec fn spec_format_genre(genre: Seq<char>) -> Seq<char> {
    let t = trim(genre);
    let t1 = if t.len() < 3 {
        Seq::empty()
    } else {
        t
    };
    let t2 = regex_substituted(
        regex_substituted(substituted(t1, genre_common_substitutes()), genre_regex_substitutes()),
        genre_regex_mappings(),
    );
    let t3 = replace(replace(t2, "Original Samples / "@, ""@), " / "@, ", "@);
    replace(spec_fix_whitespace(spec_reorder_house_genres(t3)), " / "@, ", "@)
}

/// Format a genre: trim it, drop it when shorter than three characters, and apply the
/// substitutions and mappings.
pub fn format_genre(genre: &str) -> (r: String)
    ensures
        r@ == spec_format_genre(genre@),
{
    let trimmed = trim_string(genre);
    let t1 = if to_chars(trimmed.as_str()).len() < 3 {
        let e = String::new();
        assert(e@ =~= Seq::<char>::empty());
        e
    } else {
        trimmed
    };
    let common = genre_common_substitutes_table();
    let regexes = genre_regex_substitutes_table();
    let mappings = genre_regex_mappings_table();
    let t2 = regex_substitute_all(
        regex_substitute_all(substitute_all(t1.as_str(), &common).as_str(), &regexes).as_str(),
        &mappings,
    );
    let t3 = replace_str(&replace_str(&to_chars(t2.as_str()), "Original Samples / ", ""), " / ", ", ");
    let mut g = from_chars(&t3);
    reorder_house_genres(&mut g);
    fix_whitespace(&mut g);
    from_chars(&replace_str(&to_chars(g.as_str()), " / ", ", "))
}

/// The parts of a genre separated by `" / "` are joined by `", "` before the house reordering
/// looks at it, so that a list such as `Funky / Jackin' House` is not reordered as one house
/// genre: the text the reordering sees is one in which the separators were replaced.
pub proof fn law_genre_parts_joined_before_reordering(genre: Seq<char>)
    ensures
        exists|x: Seq<char>|
            spec_format_genre(genre) == replace(
                spec_fix_whitespace(spec_reorder_house_genres(#[trigger] replace(x, " / "@, ", "@))),
                " / "@,
                ", "@,
            ),
{
    let t = trim(genre);
    let t1 = if t.len() < 3 {
        Seq::empty()
    } else {
        t
    };
    let t2 = regex_substituted(
        regex_substituted(substituted(t1, genre_common_substitutes()), genre_regex_substitutes()),
        genre_regex_mappings(),
    );
    let x = replace(t2, "Original Samples / "@, ""@);
    assert(spec_format_genre(genre) == replace(
        spec_fix_whitespace(spec_reorder_house_genres(replace(x, " / "@, ", "@))),
        " / "@,
        ", "@,
    ));
}

} // verus!
