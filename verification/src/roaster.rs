//! The roasters: the personalities that comment on every guess, their
//! roast-line tables, and the profanity filter that cleans those tables
//! when family-friendly play is asked for.

use vstd::prelude::*;
use crate::casefold::contains_spec;
use crate::casefold::lower_of;
use crate::casefold::str_contains;
use crate::casefold::to_lowercase;
use crate::rng::random_index;
use crate::text::str_eq;

verus! {

/// A roast personality the player picks at the start of a session.
#[derive(Clone, Copy, PartialEq, Eq, Structural, Debug)]
pub enum Roaster {
    Ramsay,
    UncleRoger,
    RickAstley,
    SimonCowell,
    NikkiGlaser,
    JoanRivers,
    AnthonyJeselnik,
    NickDiPaolo,
    AmySchumer,
    GilbertGottfried,
    NormMacdonald,
    LisaLampanelli,
    RichardPryor,
    DonRickles,
    GregGiraldo,
    JeffRoss,
}

impl Roaster {
    /// The roaster's display name.
    pub open spec fn name_spec(self) -> Seq<char> {
        match self {
            Roaster::Ramsay => "Gordon Ramsay"@,
            Roaster::UncleRoger => "Uncle Roger"@,
            Roaster::RickAstley => "Rick Astley"@,
            Roaster::SimonCowell => "Simon Cowell"@,
            Roaster::NikkiGlaser => "Nikki Glaser"@,
            Roaster::JoanRivers => "Joan Rivers"@,
            Roaster::AnthonyJeselnik => "Anthony Jeselnik"@,
            Roaster::NickDiPaolo => "Nick DiPaolo"@,
            Roaster::AmySchumer => "Amy Schumer"@,
            Roaster::GilbertGottfried => "Gilbert Gottfried"@,
            Roaster::NormMacdonald => "Norm Macdonald"@,
            Roaster::LisaLampanelli => "Lisa Lampanelli"@,
            Roaster::RichardPryor => "Richard Pryor"@,
            Roaster::DonRickles => "Don Rickles"@,
            Roaster::GregGiraldo => "Greg Giraldo"@,
            Roaster::JeffRoss => "Jeff Ross"@,
        }
    }

    /// Display name for menus and banners.
    pub fn name(&self) -> (r: &'static str)
        ensures
            r@ == self.name_spec(),
    {
        match self {
            Roaster::Ramsay => "Gordon Ramsay",
            Roaster::UncleRoger => "Uncle Roger",
            Roaster::RickAstley => "Rick Astley",
            Roaster::SimonCowell => "Simon Cowell",
            Roaster::NikkiGlaser => "Nikki Glaser",
            Roaster::JoanRivers => "Joan Rivers",
            Roaster::AnthonyJeselnik => "Anthony Jeselnik",
            Roaster::NickDiPaolo => "Nick DiPaolo",
            Roaster::AmySchumer => "Amy Schumer",
            Roaster::GilbertGottfried => "Gilbert Gottfried",
            Roaster::NormMacdonald => "Norm Macdonald",
            Roaster::LisaLampanelli => "Lisa Lampanelli",
            Roaster::RichardPryor => "Richard Pryor",
            Roaster::DonRickles => "Don Rickles",
            Roaster::GregGiraldo => "Greg Giraldo",
            Roaster::JeffRoss => "Jeff Ross",
        }
    }

    /// The one-line pitch shown beside the name.
    pub open spec fn description_spec(self) -> Seq<char> {
        match self {
            Roaster::Ramsay => "Brutal chef burns"@,
            Roaster::UncleRoger => "Haiyaa! Cooking roasts"@,
            Roaster::RickAstley => "Never gonna give you up puns"@,
            Roaster::SimonCowell => "\"It's a no from me\""@,
            Roaster::NikkiGlaser => "Sharp modern roast"@,
            Roaster::JoanRivers => "Savage fashion insults"@,
            Roaster::AnthonyJeselnik => "Dark, twisted deadpan"@,
            Roaster::NickDiPaolo => "Edgy, no-filter rants"@,
            Roaster::AmySchumer => "Bold, self-deprecating"@,
            Roaster::GilbertGottfried => "Loud screechy offense"@,
            Roaster::NormMacdonald => "Dry, absurd wit"@,
            Roaster::LisaLampanelli => "Savage insult queen"@,
            Roaster::RichardPryor => "Raw legendary fire"@,
            Roaster::DonRickles => "Classic hockey puck insults"@,
            Roaster::GregGiraldo => "Intelligent sharp roasts"@,
            Roaster::JeffRoss => "The Roastmaster General"@,
        }
    }

    /// One-line pitch for the roaster menu.
    pub fn description(&self) -> (r: &'static str)
        ensures
            r@ == self.description_spec(),
    {
        match self {
            Roaster::Ramsay => "Brutal chef burns",
            Roaster::UncleRoger => "Haiyaa! Cooking roasts",
            Roaster::RickAstley => "Never gonna give you up puns",
            Roaster::SimonCowell => "\"It's a no from me\"",
            Roaster::NikkiGlaser => "Sharp modern roast",
            Roaster::JoanRivers => "Savage fashion insults",
            Roaster::AnthonyJeselnik => "Dark, twisted deadpan",
            Roaster::NickDiPaolo => "Edgy, no-filter rants",
            Roaster::AmySchumer => "Bold, self-deprecating",
            Roaster::GilbertGottfried => "Loud screechy offense",
            Roaster::NormMacdonald => "Dry, absurd wit",
            Roaster::LisaLampanelli => "Savage insult queen",
            Roaster::RichardPryor => "Raw legendary fire",
            Roaster::DonRickles => "Classic hockey puck insults",
            Roaster::GregGiraldo => "Intelligent sharp roasts",
            Roaster::JeffRoss => "The Roastmaster General",
        }
    }

    /// Every roaster, in menu order.
    pub fn all() -> (r: Vec<Roaster>)
        ensures
            r@ == Self::all_spec(),
    {
        let mut r: Vec<Roaster> = Vec::new();
        r.push(Roaster::Ramsay);
        r.push(Roaster::UncleRoger);
        r.push(Roaster::RickAstley);
        r.push(Roaster::SimonCowell);
        r.push(Roaster::NikkiGlaser);
        r.push(Roaster::JoanRivers);
        r.push(Roaster::AnthonyJeselnik);
        r.push(Roaster::NickDiPaolo);
        r.push(Roaster::AmySchumer);
        r.push(Roaster::GilbertGottfried);
        r.push(Roaster::NormMacdonald);
        r.push(Roaster::LisaLampanelli);
        r.push(Roaster::RichardPryor);
        r.push(Roaster::DonRickles);
        r.push(Roaster::GregGiraldo);
        r.push(Roaster::JeffRoss);
        proof {
            assert(r@ =~= Self::all_spec());
        }
        r
    }

    /// Menu order of the roasters.
    pub open spec fn all_spec() -> Seq<Roaster> {
        seq![
            Roaster::Ramsay,
            Roaster::UncleRoger,
            Roaster::RickAstley,
            Roaster::SimonCowell,
            Roaster::NikkiGlaser,
            Roaster::JoanRivers,
            Roaster::AnthonyJeselnik,
            Roaster::NickDiPaolo,
            Roaster::AmySchumer,
            Roaster::GilbertGottfried,
            Roaster::NormMacdonald,
            Roaster::LisaLampanelli,
            Roaster::RichardPryor,
            Roaster::DonRickles,
            Roaster::GregGiraldo,
            Roaster::JeffRoss,
        ]
    }

    /// The roaster a menu choice (`"1"` to `"16"`) selects, if any.
    pub open spec fn from_choice_spec(s: Seq<char>) -> Option<Roaster> {
        if s == "1"@ {
            Some(Roaster::Ramsay)
        } else if s == "2"@ {
            Some(Roaster::UncleRoger)
        } else if s == "3"@ {
            Some(Roaster::RickAstley)
        } else if s == "4"@ {
            Some(Roaster::SimonCowell)
        } else if s == "5"@ {
            Some(Roaster::NikkiGlaser)
        } else if s == "6"@ {
            Some(Roaster::JoanRivers)
        } else if s == "7"@ {
            Some(Roaster::AnthonyJeselnik)
        } else if s == "8"@ {
            Some(Roaster::NickDiPaolo)
        } else if s == "9"@ {
            Some(Roaster::AmySchumer)
        } else if s == "10"@ {
            Some(Roaster::GilbertGottfried)
        } else if s == "11"@ {
            Some(Roaster::NormMacdonald)
        } else if s == "12"@ {
            Some(Roaster::LisaLampanelli)
        } else if s == "13"@ {
            Some(Roaster::RichardPryor)
        } else if s == "14"@ {
            Some(Roaster::DonRickles)
        } else if s == "15"@ {
            Some(Roaster::GregGiraldo)
        } else if s == "16"@ {
            Some(Roaster::JeffRoss)
        } else {
            None
        }
    }

    /// Map a roaster-menu answer to its roaster.
    pub fn from_choice(s: &str) -> (r: Option<Roaster>)
        ensures
            r == Self::from_choice_spec(s@),
    {
        if str_eq(s, "1") {
            Some(Roaster::Ramsay)
        } else if str_eq(s, "2") {
            Some(Roaster::UncleRoger)
        } else if str_eq(s, "3") {
            Some(Roaster::RickAstley)
        } else if str_eq(s, "4") {
            Some(Roaster::SimonCowell)
        } else if str_eq(s, "5") {
            Some(Roaster::NikkiGlaser)
        } else if str_eq(s, "6") {
            Some(Roaster::JoanRivers)
        } else if str_eq(s, "7") {
            Some(Roaster::AnthonyJeselnik)
        } else if str_eq(s, "8") {
            Some(Roaster::NickDiPaolo)
        } else if str_eq(s, "9") {
            Some(Roaster::AmySchumer)
        } else if str_eq(s, "10") {
            Some(Roaster::GilbertGottfried)
        } else if str_eq(s, "11") {
            Some(Roaster::NormMacdonald)
        } else if str_eq(s, "12") {
            Some(Roaster::LisaLampanelli)
        } else if str_eq(s, "13") {
            Some(Roaster::RichardPryor)
        } else if str_eq(s, "14") {
            Some(Roaster::DonRickles)
        } else if str_eq(s, "15") {
            Some(Roaster::GregGiraldo)
        } else if str_eq(s, "16") {
            Some(Roaster::JeffRoss)
        } else {
            None
        }
    }
}

/// The roast tables of one roaster: lines for guesses that fell low,
/// lines for guesses that flew high, and the message for a win. Flavor
/// text with no invariant beyond being there to pick from.
pub fn load_jibes(roaster: Roaster) -> (r: (Vec<String>, Vec<String>, &'static str))
    ensures
        r.0@.len() > 0,
        r.1@.len() > 0,
{
    match roaster {
        Roaster::Ramsay => (
            vec![
                String::from_str("Too small! You absolute donkey!"),
                String::from_str("What are you—an idiot sandwich guessing low?"),
                String::from_str("Too small! My gran could do better, and she's dead!"),
                String::from_str("Hey, panini head, wake up and guess higher!"),
                String::from_str("Too low! You stupid donut!"),
                String::from_str("That's so low it's raw—still mooing!"),
                String::from_str("Too small! You fucking idiot—aim up!"),
                String::from_str("Blimey, that's colder than my freezer. Try harder!"),
                String::from_str("Too low! You muppet, you're embarrassing yourself!"),
                String::from_str("You wanker—guess higher!"),
                String::from_str("Piss off with that low rubbish!"),
            ],
            vec![
                String::from_str("Too high! You overcooked donkey!"),
                String::from_str("Lower! It's so high it's burnt to a crisp!"),
                String::from_str("Too big! Greedy panini head!"),
                String::from_str("Reel it in, you absolute plank!"),
                String::from_str("That's so high it's fucking charred!"),
                String::from_str("Way too big! Piss off with that guess!"),
                String::from_str("Lower! You donut, you're scorching everything!"),
                String::from_str("You absolute bastard—lower!"),
            ],
            "🎯 Bang on! Finally – about bloody time!",
        ),
        Roaster::UncleRoger => (
            vec![
                String::from_str("Haiyaa! Too low lah! So weak!"),
                String::from_str("Why you guess so low? No strength at all!"),
                String::from_str("Aiyah! Too small – you fry rice like this ah?"),
                String::from_str("Too low! Emotionally damage my wok!"),
                String::from_str("Haiyaa! Guess higher lah, don't be so sad!"),
                String::from_str("So low... you put no MSG in your guess?"),
                String::from_str("Aiyo! Too low – children guess better!"),
                String::from_str("Why so weak? Lift your guess higher!"),
                String::from_str("Haiyaa! This guess no flavor – too low!"),
                String::from_str("Too small lah! Uncle Roger disappointed!"),
            ],
            vec![
                String::from_str("Fuiyoh! Too high lah! Overcook already!"),
                String::from_str("Aiyah! Too big – you put too much MSG!"),
                String::from_str("Haiyaa! Way too high – wok on fire!"),
                String::from_str("Too high! You deep fry until burnt ah?"),
                String::from_str("Fuiyoh! Reel it in – too much oil!"),
                String::from_str("So high... you make Uncle Roger scream!"),
                String::from_str("Aiyo! Too big – lower lah, don't be crazy!"),
                String::from_str("Haiyaa! This guess over-seasoned!"),
            ],
            "🎯 Fuiyoh! Correct lah! Uncle Roger proud of you!",
        ),
        Roaster::RickAstley => (
            vec![
                String::from_str("Too low! But I'm never gonna let you down... so guess higher!"),
                String::from_str("Never gonna give you up... but that guess is too small!"),
                String::from_str("We're no strangers to bad guesses – aim up!"),
                String::from_str("Too low! Never gonna run around and desert the right number!"),
                String::from_str("Never gonna make you cry... unless you keep guessing low!"),
                String::from_str("A full commitment's what I'm thinking of – guess higher!"),
            ],
            vec![
                String::from_str("Too high! Never gonna run around with big numbers!"),
                String::from_str("That guess is too big – never gonna give you up!"),
                String::from_str("Never gonna let you down... by guessing lower!"),
                String::from_str("Too high! You've got to make me understand – reel it in!"),
                String::from_str("Guess lower – never gonna give this roast up!"),
            ],
            "🎯 Never gonna give you up... you finally got it! Well played!",
        ),
        Roaster::SimonCowell => (
            vec![
                String::from_str("Too low. That was absolutely dreadful."),
                String::from_str("It's a no from me – guess higher."),
                String::from_str("Honestly, that guess was terrible."),
                String::from_str("Far too low. I didn't like it at all."),
                String::from_str("Dreadful. Absolutely dreadful."),
                String::from_str("Too low! Not good enough, I'm afraid."),
            ],
            vec![
                String::from_str("Too high. Over the top."),
                String::from_str("It's a no from me – reel it in."),
                String::from_str("Way too high. Honestly, terrible."),
                String::from_str("Too big! I didn't like it."),
            ],
            "🎯 Well done. That was actually very good.",
        ),
        Roaster::NikkiGlaser => (
            vec![
                String::from_str("Too low – that's disappointing."),
                String::from_str("Too small! Come on, aim higher."),
                String::from_str("Too low! You're undershooting, babe."),
                String::from_str("Too low – fucking embarrassing."),
                String::from_str("Guess higher, you idiot."),
                String::from_str("That's so low it's pathetic."),
                String::from_str("Too low! What the fuck?"),
            ],
            vec![
                String::from_str("Too high – greedy much?"),
                String::from_str("Way too big! Reel it in."),
                String::from_str("Too high! Calm down."),
                String::from_str("Too big! Fucking relax."),
                String::from_str("Lower! Jesus Christ."),
            ],
            "🎯 Yes! Finally – you got there.",
        ),
        Roaster::JoanRivers => (
            vec![
                String::from_str("Too low! Can we talk? That guess is hideous."),
                String::from_str("Oh honey, too low – that's tragic."),
                String::from_str("Too small, darling – it fell off the ugly tree."),
                String::from_str("Guess higher! That was atrocious."),
                String::from_str("Can we talk? Too fucking low."),
            ],
            vec![
                String::from_str("Too high! That's overdone, darling."),
                String::from_str("Way too big – calm down."),
                String::from_str("Too high! It looks ridiculous."),
                String::from_str("Lower! Fucking terrible."),
            ],
            "🎯 Oh honey, you got it! Fabulous!",
        ),
        Roaster::AnthonyJeselnik => (
            vec![
                String::from_str("Too low. Your guess has the life expectancy of a Jeselnik relationship."),
                String::from_str("Too low – that's the number of people who care."),
                String::from_str("Too low. I was hoping for tragedy, but this is just sad."),
                String::from_str("Too low! Like the bar I set for humanity."),
                String::from_str("Too low. Dead wrong – my favorite kind."),
                String::from_str("Too low. That's almost as disappointing as finding out your parents tried."),
            ],
            vec![
                String::from_str("Too high. Optimism is cute – on other people."),
                String::from_str("Too high! Reaching for something you'll never touch."),
                String::from_str("Too high. That's the highest you'll ever get."),
                String::from_str("Too high – classic overconfidence before the fall."),
                String::from_str("Too high. Your guess peaked too early."),
            ],
            "🎯 You got it. The twist? You still lose at life.",
        ),
        Roaster::NickDiPaolo => (
            vec![
                String::from_str("Too low, you moron!"),
                String::from_str("Too low! What are you, stupid?"),
                String::from_str("Too low – that's weak sauce."),
                String::from_str("Too low, you fuckin' idiot!"),
                String::from_str("Too low! Grow a pair and guess higher!"),
                String::from_str("Too low – embarrassing."),
            ],
            vec![
                String::from_str("Too high! Calm the fuck down!"),
                String::from_str("Too high, you greedy bastard!"),
                String::from_str("Too high – reel it in, jackass!"),
                String::from_str("Too high! You're killing me here."),
                String::from_str("Too high, dumbass!"),
            ],
            "🎯 You got it – miracles do happen.",
        ),
        Roaster::AmySchumer => (
            vec![
                String::from_str("Too low – story of my life."),
                String::from_str("Too low! I would've guessed higher, but I'm not good at this either."),
                String::from_str("Too low – that's like my standards on a Tuesday."),
                String::from_str("Too low, you basic bitch."),
                String::from_str("Too low! Even I steal better than that."),
                String::from_str("Too low – that's sad, babe."),
            ],
            vec![
                String::from_str("Too high – overcompensating much?"),
                String::from_str("Too high! Greedy, aren't we?"),
                String::from_str("Too high – calm your tits."),
                String::from_str("Too high, you try-hard."),
                String::from_str("Too high – that's ambitious for you."),
            ],
            "🎯 You win! I did not see that coming.",
        ),
        Roaster::GilbertGottfried => (
            vec![
                String::from_str("TOO LOW!!! AHHHH!!!"),
                String::from_str("TOO LOW, YOU IDIOT!!!"),
                String::from_str("TOO LOOOOOOW!!! SCREECH!!!"),
                String::from_str("TOO LOW!!! WHAT IS WRONG WITH YOU?!!"),
                String::from_str("TOO LOW!!! DISGUSTING!!!"),
            ],
            vec![
                String::from_str("TOO HIGH!!! AHHHHH!!!"),
                String::from_str("TOO HIIIIIIIGH!!! MORON!!!"),
                String::from_str("TOO HIGH!!! STOP IT!!!"),
                String::from_str("TOO HIGH!!! YOU'RE KILLING ME!!!"),
            ],
            "🎯 YOU GOT IT!!! FINALLY!!! AHHHH!!!",
        ),
        Roaster::NormMacdonald => (
            vec![
                String::from_str("Too low. You know, back in the old country..."),
                String::from_str("Too low. Or so the Germans would have us believe."),
                String::from_str("Too low. That's the old joke."),
                String::from_str("Too low, folks. Real low."),
                String::from_str("Too low. I once knew a guy who guessed too low... he died."),
            ],
            vec![
                String::from_str("Too high. Now that's just silly."),
                String::from_str("Too high. You're funnier than you look."),
                String::from_str("Too high. That's what she said... wait, no."),
                String::from_str("Too high, my friend. Way too high."),
            ],
            "🎯 You got it. Well, I'll be a son of a gun.",
        ),
        Roaster::LisaLampanelli => (
            vec![
                String::from_str("Too low, you fat fuck!"),
                String::from_str("Too low – that's pathetic, sweetheart."),
                String::from_str("Too low, you disgusting pig!"),
                String::from_str("Too low! Go eat a sandwich and guess higher!"),
                String::from_str("Too low, you worthless piece of shit!"),
            ],
            vec![
                String::from_str("Too high, you greedy bastard!"),
                String::from_str("Too high – tone it down, asshole!"),
                String::from_str("Too high, you cocky prick!"),
                String::from_str("Too high! Calm your tits!"),
            ],
            "🎯 You got it, you magnificent bastard!",
        ),
        Roaster::RichardPryor => (
            vec![
                String::from_str("Too low, motherfucker!"),
                String::from_str("Too low! Shit, that's cold."),
                String::from_str("Too low – you jivin' me?"),
                String::from_str("Too low, damn!"),
                String::from_str("Too low! That's some weak-ass guessing."),
            ],
            vec![
                String::from_str("Too high, nigga!"),
                String::from_str("Too high! Slow your roll!"),
                String::from_str("Too high – you trippin'!"),
                String::from_str("Too high, goddamn!"),
            ],
            "🎯 You got it! Hot damn!",
        ),
        Roaster::DonRickles => (
            vec![
                String::from_str("Too low, you hockey puck!"),
                String::from_str("Too low, you dummy!"),
                String::from_str("Too low, you bum!"),
                String::from_str("Too low, you big shot!"),
                String::from_str("Too low, you moron!"),
                String::from_str("Too low, you schmuck!"),
            ],
            vec![
                String::from_str("Too high, you hockey puck!"),
                String::from_str("Too high, you dummy!"),
                String::from_str("Too high, you stiff!"),
                String::from_str("Too high, you palooka!"),
            ],
            "🎯 You got it, you hockey puck! Nice work.",
        ),
        Roaster::GregGiraldo => (
            vec![
                String::from_str("Too low. That's just sad."),
                String::from_str("Too low – you're killing me here."),
                String::from_str("Too low! What a waste of talent."),
                String::from_str("Too low. You're better than this."),
                String::from_str("Too low – embarrassing."),
            ],
            vec![
                String::from_str("Too high. Greedy much?"),
                String::from_str("Too high! Overreaching as usual."),
                String::from_str("Too high – dial it back."),
                String::from_str("Too high. You're not that good."),
            ],
            "🎯 You got it. Not bad, not bad.",
        ),
        Roaster::JeffRoss => (
            vec![
                String::from_str("Too low! You look like a low guess feels."),
                String::from_str("Too low – you're bombing harder than usual."),
                String::from_str("Too low! Even your haircut guessed higher."),
                String::from_str("Too low, you fat fuck!"),
                String::from_str("Too low – ugly and wrong."),
            ],
            vec![
                String::from_str("Too high! Reel it in, fatty!"),
                String::from_str("Too high – overcompensating again?"),
                String::from_str("Too high! Your ego guessed that."),
                String::from_str("Too high – calm down, loser."),
            ],
            "🎯 You got it! The Roastmaster is impressed... slightly.",
        ),
    }
}

/// The `k`-th banned word of the profanity filter, all lowercase.
pub open spec fn bad_word_spec(k: int) -> Seq<char> {
    if k == 0 {
        "fuck"@
    } else if k == 1 {
        "shit"@
    } else if k == 2 {
        "cunt"@
    } else if k == 3 {
        "bastard"@
    } else if k == 4 {
        "bellend"@
    } else if k == 5 {
        "wanker"@
    } else if k == 6 {
        "piss"@
    } else if k == 7 {
        "asshole"@
    } else if k == 8 {
        "dick"@
    } else if k == 9 {
        "fag"@
    } else {
        "retard"@
    }
}

/// How many words the profanity filter bans.
pub const BAD_WORD_COUNT: usize = 11;

/// The banned words, in filter order.
pub fn bad_words() -> (r: Vec<&'static str>)
    ensures
        r@.len() == BAD_WORD_COUNT,
        forall|k: int| 0 <= k < BAD_WORD_COUNT ==> (#[trigger] r@[k])@ == bad_word_spec(k),
{
    let r = vec![
        "fuck",
        "shit",
        "cunt",
        "bastard",
        "bellend",
        "wanker",
        "piss",
        "asshole",
        "dick",
        "fag",
        "retard",
    ];
    proof {
        assert forall|k: int| 0 <= k < BAD_WORD_COUNT implies (#[trigger] r@[k])@ == bad_word_spec(
            k,
        ) by {
        }
    }
    r
}

/// Whether a roast line is free of banned words: its lowercase form
/// contains none of them.
pub open spec fn jibe_clean(t: Seq<char>) -> bool {
    forall|k: int| 0 <= k < BAD_WORD_COUNT ==> !contains_spec(lower_of(t), #[trigger] bad_word_spec(
        k,
    ))
}

/// Test one roast line against the banned words.
pub fn is_clean(j: &str) -> (r: bool)
    ensures
        r == jibe_clean(j@),
{
    let low = to_lowercase(j);
    let words = bad_words();
    let mut k: usize = 0;
    while k < words.len()
        invariant
            low@ == lower_of(j@),
            words@.len() == BAD_WORD_COUNT,
            forall|k2: int| 0 <= k2 < BAD_WORD_COUNT ==> (#[trigger] words@[k2])@ == bad_word_spec(
                k2,
            ),
            k <= words@.len(),
            forall|k2: int|
                0 <= k2 < k ==> !contains_spec(lower_of(j@), #[trigger] bad_word_spec(k2)),
        decreases words@.len() - k,
    {
        if str_contains(low.as_str(), words[k]) {
            return false;
        }
        k = k + 1;
    }
    true
}

/// The roast lines that survive the profanity filter, in order.
pub open spec fn filter_clean_spec(s: Seq<Seq<char>>) -> Seq<Seq<char>>
    decreases s.len(),
{
    if s.len() == 0 {
        Seq::empty()
    } else {
        filter_clean_spec(s.drop_last()) + (if jibe_clean(s.last()) {
            seq![s.last()]
        } else {
            Seq::<Seq<char>>::empty()
        })
    }
}

/// Run a roast table through the profanity filter: lines with banned
/// words are dropped, and a table left empty falls back to one plain
/// line so there is always something to say.
pub fn filter_jibes(jibes: Vec<String>, fallback: &str) -> (r: Vec<String>)
    ensures
        ({
            let kept = filter_clean_spec(jibes@.map_values(|t: String| t@));
            if kept.len() > 0 {
                r@.map_values(|t: String| t@) == kept
            } else {
                r@.map_values(|t: String| t@) == seq![fallback@]
            }
        }),
{
    let ghost jv = jibes@.map_values(|t: String| t@);
    let mut out: Vec<String> = Vec::new();
    proof {
        assert(jv.subrange(0, 0) =~= Seq::<Seq<char>>::empty());
        assert(out@.map_values(|t: String| t@) =~= Seq::<Seq<char>>::empty());
    }
    let mut i: usize = 0;
    while i < jibes.len()
        invariant
            jv == jibes@.map_values(|t: String| t@),
            i <= jibes@.len(),
            out@.map_values(|t: String| t@) == filter_clean_spec(jv.subrange(0, i as int)),
        decreases jibes@.len() - i,
    {
        let ghost before = out@.map_values(|t: String| t@);
        if is_clean(jibes[i].as_str()) {
            let kept = jibes[i].clone();
            out.push(kept);
            proof {
                assert(out@.map_values(|t: String| t@) =~= before.push(jv[i as int]));
            }
        }
        proof {
            let p = jv.subrange(0, i as int);
            let q = jv.subrange(0, i as int + 1);
            assert(q.drop_last() =~= p);
            assert(q.last() == jv[i as int]);
            assert(jv[i as int] == jibes@[i as int]@);
            if jibe_clean(jv[i as int]) {
                assert(filter_clean_spec(q) =~= filter_clean_spec(p).push(jv[i as int]));
            } else {
                assert(filter_clean_spec(q) =~= filter_clean_spec(p));
            }
        }
        i = i + 1;
    }
    proof {
        assert(jv.subrange(0, jv.len() as int) =~= jv);
    }
    if out.len() == 0 {
        let ghost before = out@.map_values(|t: String| t@);
        out.push(String::from_str(fallback));
        proof {
            assert(out@.map_values(|t: String| t@) =~= seq![fallback@]);
        }
    }
    out
}

/// Pick one roast line from a non-empty table, at random.
pub fn pick_jibe<'a>(jibes: &'a Vec<String>) -> (r: &'a String)
    requires
        jibes@.len() > 0,
    ensures
        exists|i: int| 0 <= i < jibes@.len() && *r == jibes@[i],
{
    let i = random_index(jibes.len());
    proof {
        assert(jibes@[i as int] == jibes@[i as int]);
    }
    &jibes[i]
}

} // verus!
