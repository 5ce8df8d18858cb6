//! What an assistant reports about a drying session, the reading of its
//! structured answer, and a stand-in assistant that answers from fixed
//! rules.

use vstd::prelude::*;
use vstd::string::StringExecFns;
use crate::fixed::{saturate, saturate_i128};
use crate::scoring::{DryingScore, WeatherFeatures};
use crate::text::{
    begins_with, chars_of, contains_text, copy_range, decimal, fixed_text, has_substring,
    join_texts, joined, lines_of, lowercase, matches_at, pieces_view, push_decimal, push_fixed,
    split_chars, split_lines, split_on, starts_with, text_of, texts_view, trim_bounds, trimmed,
    whole_part, whole_part_of,
};

verus! {

/// Why an answer of the assistant's service holds no text.
#[derive(Debug, Clone)]
pub enum AiError {
    /// The service answered with an error, or without a choice.
    ApiError(String),
    /// The service refused for the moment because of its rate limit.
    RateLimited,
}

/// How satisfied the user was.
#[derive(Debug, Clone, Copy, PartialEq, Eq, Structural)]
pub enum FeedbackSatisfaction {
    Satisfied,
    Neutral,
    Dissatisfied,
}

/// How dry the laundry came out.
#[derive(Debug, Clone, Copy, PartialEq, Eq, Structural)]
pub enum DryingResult {
    CompletelyDry,
    MostlyDry,
    PartiallyDry,
    NotDry,
}

/// How sure the analysis is of itself.
#[derive(Debug, Clone, Copy, PartialEq, Eq, Structural)]
pub enum AnalysisConfidence {
    High,
    Medium,
    Low,
}

/// The structured reading of one piece of feedback.
#[derive(Debug, Clone)]
pub struct FeedbackAnalysis {
    pub satisfaction: FeedbackSatisfaction,
    pub drying_result: DryingResult,
    pub key_factors: Vec<String>,
    pub confidence: AnalysisConfidence,
}

/// What a `FeedbackAnalysis` says, with its key factors as character
/// sequences.
pub struct Reading {
    pub satisfaction: FeedbackSatisfaction,
    pub drying_result: DryingResult,
    pub key_factors: Seq<Seq<char>>,
    pub confidence: AnalysisConfidence,
}

impl View for FeedbackAnalysis {
    type V = Reading;

    open spec fn view(&self) -> Reading {
        Reading {
            satisfaction: self.satisfaction,
            drying_result: self.drying_result,
            key_factors: Seq::new(self.key_factors@.len(), |i: int| self.key_factors@[i]@),
            confidence: self.confidence,
        }
    }
}

/// The reading that an answer without any recognised line gives.
pub open spec fn blank_reading() -> Reading {
    Reading {
        satisfaction: FeedbackSatisfaction::Neutral,
        drying_result: DryingResult::PartiallyDry,
        key_factors: Seq::empty(),
        confidence: AnalysisConfidence::Medium,
    }
}

/// The satisfaction that a word stands for; neutral for any other word.
pub open spec fn satisfaction_of(word: Seq<char>) -> FeedbackSatisfaction {
    if word == "satisfied"@ {
        FeedbackSatisfaction::Satisfied
    } else if word == "dissatisfied"@ {
        FeedbackSatisfaction::Dissatisfied
    } else {
        FeedbackSatisfaction::Neutral
    }
}

/// The drying result that a word stands for; partially dry for any other
/// word.
pub open spec fn drying_result_of(word: Seq<char>) -> DryingResult {
    if word == "completely_dry"@ {
        DryingResult::CompletelyDry
    } else if word == "mostly_dry"@ {
        DryingResult::MostlyDry
    } else if word == "not_dry"@ {
        DryingResult::NotDry
    } else {
        DryingResult::PartiallyDry
    }
}

/// The confidence that a word stands for; medium for any other word.
pub open spec fn confidence_of(word: Seq<char>) -> AnalysisConfidence {
    if word == "high"@ {
        AnalysisConfidence::High
    } else if word == "low"@ {
        AnalysisConfidence::Low
    } else {
        AnalysisConfidence::Medium
    }
}

/// The pieces trimmed, without those that are empty after trimming.
pub open spec fn trimmed_non_empty(pieces: Seq<Seq<char>>) -> Seq<Seq<char>>
    decreases pieces.len(),
{
    if pieces.len() == 0 {
        Seq::empty()
    } else {
        let front = trimmed_non_empty(pieces.drop_last());
        let piece = trimmed(pieces.last());
        if piece.len() > 0 { front.push(piece) } else { front }
    }
}

/// The key factors that a comma-separated list names.
pub open spec fn key_factors_of(list: Seq<char>) -> Seq<Seq<char>> {
    trimmed_non_empty(split_on(list, ','))
}

/// The reading after one more line. A line that begins with
/// `SATISFACTION: `, `DRYING_RESULT: `, `KEY_FACTORS: ` or `CONFIDENCE: `
/// sets that part of the reading from what follows the label; any other
/// line changes nothing.
pub open spec fn read_line(reading: Reading, line: Seq<char>) -> Reading {
    if starts_with(line, "SATISFACTION: "@) {
        Reading {
            satisfaction: satisfaction_of(trimmed(line.skip("SATISFACTION: "@.len() as int))),
            ..reading
        }
    } else if starts_with(line, "DRYING_RESULT: "@) {
        Reading {
            drying_result: drying_result_of(trimmed(line.skip("DRYING_RESULT: "@.len() as int))),
            ..reading
        }
    } else if starts_with(line, "KEY_FACTORS: "@) {
        Reading {
            key_factors: key_factors_of(line.skip("KEY_FACTORS: "@.len() as int)),
            ..reading
        }
    } else if starts_with(line, "CONFIDENCE: "@) {
        Reading {
            confidence: confidence_of(trimmed(line.skip("CONFIDENCE: "@.len() as int))),
            ..reading
        }
    } else {
        reading
    }
}

/// The reading after all of `lines`, taken in order; a later line
/// overrides an earlier one with the same label.
pub open spec fn read_lines(lines: Seq<Seq<char>>) -> Reading
    decreases lines.len(),
{
    if lines.len() == 0 {
        blank_reading()
    } else {
        read_line(read_lines(lines.drop_last()), lines.last())
    }
}

/// The reading of the assistant's structured answer.
pub open spec fn parsed_feedback(response: Seq<char>) -> Reading {
    read_lines(lines_of(response))
}

/// Whether the trimmed rest of a line is the given word.
fn rest_is(value: &Vec<char>, word: &str) -> (same: bool)
    ensures
        same == (trimmed(value@) == word@),
{
    let (begin, end) = trim_bounds(value);
    let letters = chars_of(word);
    if begin >= end {
        assert(letters@.len() == 0 ==> letters@ == Seq::<char>::empty());
        return letters.len() == 0;
    }
    if end - begin != letters.len() {
        return false;
    }
    matches_at(value, &letters, begin)
}

/// Reads the key factors out of a comma-separated list.
fn read_key_factors(list: &Vec<char>) -> (factors: Vec<String>)
    ensures
        Seq::new(factors@.len(), |i: int| factors@[i]@) == key_factors_of(list@),
{
    let pieces = split_chars(list, ',');
    let mut factors: Vec<String> = Vec::new();
    let mut i: usize = 0;
    assert(pieces_view(pieces@).take(0) == Seq::<Seq<char>>::empty());
    while i < pieces.len()
        invariant
            i <= pieces.len(),
            Seq::new(factors@.len(), |k: int| factors@[k]@) == trimmed_non_empty(
                pieces_view(pieces@).take(i as int),
            ),
        decreases pieces.len() - i,
    {
        let ghost before = Seq::new(factors@.len(), |k: int| factors@[k]@);
        let (begin, end) = trim_bounds(&pieces[i]);
        proof {
            let next = pieces_view(pieces@).take(i + 1);
            assert(next.drop_last() == pieces_view(pieces@).take(i as int));
            assert(next.last() == pieces@[i as int]@);
        }
        if begin < end {
            factors.push(text_of(&pieces[i], begin, end));
            assert(Seq::new(factors@.len(), |k: int| factors@[k]@) == before.push(
                trimmed(pieces@[i as int]@),
            ));
        }
        i = i + 1;
    }
    assert(pieces_view(pieces@).take(pieces@.len() as int) == pieces_view(pieces@));
    factors
}

/// Reads the assistant's structured answer to a request for feedback
/// analysis. Every answer can be read: what it does not say keeps its
/// blank value.
pub fn parse_feedback_analysis(response: &str) -> (parsed: Result<FeedbackAnalysis, AiError>)
    ensures
        parsed matches Ok(analysis) && analysis@ == parsed_feedback(response@),
{
    let text = chars_of(response);
    let lines = split_lines(&text);
    let satisfaction_label = chars_of("SATISFACTION: ");
    let drying_label = chars_of("DRYING_RESULT: ");
    let factors_label = chars_of("KEY_FACTORS: ");
    let confidence_label = chars_of("CONFIDENCE: ");
    let mut analysis = FeedbackAnalysis {
        satisfaction: FeedbackSatisfaction::Neutral,
        drying_result: DryingResult::PartiallyDry,
        key_factors: Vec::new(),
        confidence: AnalysisConfidence::Medium,
    };
    assert(analysis@.key_factors == Seq::<Seq<char>>::empty());
    assert(pieces_view(lines@).take(0) == Seq::<Seq<char>>::empty());
    let mut i: usize = 0;
    while i < lines.len()
        invariant
            i <= lines.len(),
            satisfaction_label@ == "SATISFACTION: "@,
            drying_label@ == "DRYING_RESULT: "@,
            factors_label@ == "KEY_FACTORS: "@,
            confidence_label@ == "CONFIDENCE: "@,
            analysis@ == read_lines(pieces_view(lines@).take(i as int)),
        decreases lines.len() - i,
    {
        let line = &lines[i];
        proof {
            let next = pieces_view(lines@).take(i + 1);
            assert(next.drop_last() == pieces_view(lines@).take(i as int));
            assert(next.last() == line@);
        }
        if begins_with(line, &satisfaction_label) {
            let value = copy_range(line, satisfaction_label.len(), line.len());
            assert(value@ == line@.skip(satisfaction_label@.len() as int));
            analysis.satisfaction = if rest_is(&value, "satisfied") {
                FeedbackSatisfaction::Satisfied
            } else if rest_is(&value, "dissatisfied") {
                FeedbackSatisfaction::Dissatisfied
            } else {
                FeedbackSatisfaction::Neutral
            };
        } else if begins_with(line, &drying_label) {
            let value = copy_range(line, drying_label.len(), line.len());
            assert(value@ == line@.skip(drying_label@.len() as int));
            analysis.drying_result = if rest_is(&value, "completely_dry") {
                DryingResult::CompletelyDry
            } else if rest_is(&value, "mostly_dry") {
                DryingResult::MostlyDry
            } else if rest_is(&value, "not_dry") {
                DryingResult::NotDry
            } else {
                DryingResult::PartiallyDry
            };
        } else if begins_with(line, &factors_label) {
            let value = copy_range(line, factors_label.len(), line.len());
            assert(value@ == line@.skip(factors_label@.len() as int));
            analysis.key_factors = read_key_factors(&value);
        } else if begins_with(line, &confidence_label) {
            let value = copy_range(line, confidence_label.len(), line.len());
            assert(value@ == line@.skip(confidence_label@.len() as int));
            analysis.confidence = if rest_is(&value, "high") {
                AnalysisConfidence::High
            } else if rest_is(&value, "low") {
                AnalysisConfidence::Low
            } else {
                AnalysisConfidence::Medium
            };
        }
        i = i + 1;
    }
    assert(pieces_view(lines@).take(lines@.len() as int) == pieces_view(lines@));
    Ok(analysis)
}

/// An assistant that answers from fixed rules.
#[derive(Debug, Clone, Copy, PartialEq, Eq, Structural)]
pub struct MockAiClient;

/// The tips that the stand-in assistant gives for a kind of weather: one
/// on wind above 3 m/s or below 1 m/s, one on humidity above 80 %, one on
/// a rain probability above 0.3; where none of these applies, one that
/// says that conditions are good.
pub open spec fn drying_tips(weather: WeatherFeatures) -> Seq<Seq<char>> {
    let wind = if weather.wind_ms > 3_000_000 {
        seq!["Take advantage of the strong wind by hanging clothes in open areas."@]
    } else if weather.wind_ms < 1_000_000 {
        seq!["With low wind, space clothes well apart for better air circulation."@]
    } else {
        Seq::empty()
    };
    let humidity = if weather.rh > 80_000_000 {
        seq![
            "High humidity may slow drying - consider using a covered but ventilated area."@,
        ]
    } else {
        Seq::empty()
    };
    let rain = if weather.rain_p > 300_000 {
        seq!["Keep an eye on the sky and be ready to bring clothes in if rain starts."@]
    } else {
        Seq::empty()
    };
    let all = wind + humidity + rain;
    if all.len() == 0 {
        seq!["Conditions look good for drying - hang clothes evenly spaced for best results."@]
    } else {
        all
    }
}

/// What the stand-in assistant says of the first of the windows it is
/// shown, or that there is none.
pub open spec fn mock_explanation(windows: Seq<(String, DryingScore, WeatherFeatures)>) -> Seq<
    char,
> {
    if windows.len() == 0 {
        "No suitable drying windows found in the current forecast."@
    } else {
        let score = windows[0].1;
        let weather = windows[0].2;
        "The recommended window has optimal conditions with "@ + decimal(
            whole_part(weather.temp_c as int),
        ) + "°C temperature, "@ + decimal(whole_part(weather.rh as int)) + "% humidity, and "@
            + decimal(whole_part(weather.wind_ms as int))
            + " m/s wind speed, resulting in a drying score of "@ + fixed_text(
            score.score as int,
            1,
        )
            + "/10. These conditions provide good evaporation rates while minimizing rain risk."@
    }
}

/// The satisfaction that feedback in lower case speaks of: satisfied where
/// it says good, great or perfect; else dissatisfied where it says bad,
/// terrible or awful; else neutral.
pub open spec fn satisfaction_in(lowered: Seq<char>) -> FeedbackSatisfaction {
    if has_substring(lowered, "good"@) || has_substring(lowered, "great"@) || has_substring(
        lowered,
        "perfect"@,
    ) {
        FeedbackSatisfaction::Satisfied
    } else if has_substring(lowered, "bad"@) || has_substring(lowered, "terrible"@)
        || has_substring(lowered, "awful"@) {
        FeedbackSatisfaction::Dissatisfied
    } else {
        FeedbackSatisfaction::Neutral
    }
}

/// The drying result that feedback in lower case speaks of.
pub open spec fn drying_result_in(lowered: Seq<char>) -> DryingResult {
    if has_substring(lowered, "completely dry"@) || has_substring(lowered, "fully dry"@) {
        DryingResult::CompletelyDry
    } else if has_substring(lowered, "mostly dry"@) {
        DryingResult::MostlyDry
    } else if has_substring(lowered, "still wet"@) || has_substring(lowered, "not dry"@) {
        DryingResult::NotDry
    } else {
        DryingResult::PartiallyDry
    }
}

/// What the stand-in assistant reads out of feedback in lower case.
pub open spec fn mock_reading(lowered: Seq<char>) -> Reading {
    Reading {
        satisfaction: satisfaction_in(lowered),
        drying_result: drying_result_in(lowered),
        key_factors: seq!["temperature"@, "humidity"@],
        confidence: AnalysisConfidence::Medium,
    }
}

fn mentions(lowered: &Vec<char>, word: &str) -> (found: bool)
    ensures
        found == has_substring(lowered@, word@),
{
    let letters = chars_of(word);
    contains_text(lowered, &letters)
}

/// Reads satisfaction and drying result out of feedback that is already
/// in lower case.
pub fn classify_feedback(lowered: &str) -> (analysis: FeedbackAnalysis)
    ensures
        analysis@ == mock_reading(lowered@),
{
    let text = chars_of(lowered);
    let satisfaction = if mentions(&text, "good") || mentions(&text, "great") || mentions(
        &text,
        "perfect",
    ) {
        FeedbackSatisfaction::Satisfied
    } else if mentions(&text, "bad") || mentions(&text, "terrible") || mentions(&text, "awful") {
        FeedbackSatisfaction::Dissatisfied
    } else {
        FeedbackSatisfaction::Neutral
    };
    let drying_result = if mentions(&text, "completely dry") || mentions(&text, "fully dry") {
        DryingResult::CompletelyDry
    } else if mentions(&text, "mostly dry") {
        DryingResult::MostlyDry
    } else if mentions(&text, "still wet") || mentions(&text, "not dry") {
        DryingResult::NotDry
    } else {
        DryingResult::PartiallyDry
    };
    let mut key_factors: Vec<String> = Vec::new();
    key_factors.push(String::from_str("temperature"));
    key_factors.push(String::from_str("humidity"));
    let analysis = FeedbackAnalysis {
        satisfaction,
        drying_result,
        key_factors,
        confidence: AnalysisConfidence::Medium,
    };
    assert(analysis@.key_factors == seq!["temperature"@, "humidity"@]);
    analysis
}

impl MockAiClient {
    /// A new stand-in assistant.
    pub fn new() -> (client: MockAiClient)
        ensures
            client == MockAiClient,
    {
        MockAiClient
    }

    /// Explains the first of the windows shown.
    pub fn explain_recommendation(
        &self,
        window_data: &[(String, DryingScore, WeatherFeatures)],
        _user_preferences: Option<&str>,
    ) -> (answer: Result<String, AiError>)
        ensures
            answer matches Ok(text) && text@ == mock_explanation(window_data@),
    {
        if window_data.len() == 0 {
            return Ok(String::from_str("No suitable drying windows found in the current forecast."));
        }
        let score = &window_data[0].1;
        let weather = &window_data[0].2;
        let mut text = String::from_str("The recommended window has optimal conditions with ");
        push_decimal(&mut text, whole_part_of(weather.temp_c) as i64);
        text.append("°C temperature, ");
        push_decimal(&mut text, whole_part_of(weather.rh) as i64);
        text.append("% humidity, and ");
        push_decimal(&mut text, whole_part_of(weather.wind_ms) as i64);
        text.append(" m/s wind speed, resulting in a drying score of ");
        push_fixed(&mut text, score.score, 1);
        text.append(
            "/10. These conditions provide good evaporation rates while minimizing rain risk.",
        );
        Ok(text)
    }

    /// Gives tips for drying in the given weather.
    pub fn generate_drying_tips(&self, weather: &WeatherFeatures, _score: &DryingScore) -> (answer:
        Result<String, AiError>)
        ensures
            answer matches Ok(text) && text@ == joined(drying_tips(*weather), " "@),
    {
        let mut tips: Vec<&str> = Vec::new();
        if weather.wind_ms > 3_000_000 {
            tips.push("Take advantage of the strong wind by hanging clothes in open areas.");
        } else if weather.wind_ms < 1_000_000 {
            tips.push("With low wind, space clothes well apart for better air circulation.");
        }
        if weather.rh > 80_000_000 {
            tips.push(
                "High humidity may slow drying - consider using a covered but ventilated area.",
            );
        }
        if weather.rain_p > 300_000 {
            tips.push("Keep an eye on the sky and be ready to bring clothes in if rain starts.");
        }
        if tips.len() == 0 {
            tips.push(
                "Conditions look good for drying - hang clothes evenly spaced for best results.",
            );
        }
        assert(texts_view(tips@) == drying_tips(*weather));
        Ok(join_texts(&tips, " "))
    }

    /// Reads satisfaction and drying result out of a piece of feedback.
    pub fn analyze_feedback(
        &self,
        feedback_text: &str,
        _weather_context: &WeatherFeatures,
    ) -> (answer: Result<FeedbackAnalysis, AiError>)
        ensures
            answer matches Ok(analysis) && analysis@ == mock_reading(lowercase(feedback_text@)),
    {
        let lowered = feedback_text.to_lowercase();
        Ok(classify_feedback(lowered.as_str()))
    }
}

/// A fraction of one as a percentage.
pub open spec fn percent(fraction: int) -> int {
    saturate(fraction * 100)
}

fn percent_of(fraction: i64) -> (p: i64)
    ensures
        p == percent(fraction as int),
{
    saturate_i128((fraction as i128) * 100)
}

/// One line of a prompt: a label, a number with `places` decimal places,
/// and what follows the number.
pub open spec fn measure(label: Seq<char>, v: int, places: nat, tail: Seq<char>) -> Seq<char> {
    label + fixed_text(v, places) + tail
}

fn push_measure(out: &mut String, label: &str, v: i64, places: u32, tail: &str)
    requires
        places <= 6,
    ensures
        final(out)@ == old(out)@ + measure(label@, v as int, places as nat, tail@),
{
    out.append(label);
    push_fixed(out, v, places);
    out.append(tail);
    assert(out@ == old(out)@ + (label@ + fixed_text(v as int, places as nat) + tail@));
}

/// A prompt with the block of one window appended: the window's name and
/// score, its weather line by line, the expected rain where there is any,
/// and an empty line.
pub open spec fn with_window_block(
    prompt: Seq<char>,
    id: Seq<char>,
    score: DryingScore,
    weather: WeatherFeatures,
) -> Seq<char> {
    let base = prompt + "Window "@ + id + measure(": Score "@, score.score as int, 2, "\n"@)
        + measure("- Temperature: "@, weather.temp_c as int, 1, "°C\n"@) + measure(
        "- Humidity: "@,
        weather.rh as int,
        1,
        "%\n"@,
    ) + measure("- Wind: "@, weather.wind_ms as int, 1, " m/s\n"@) + measure(
        "- Cloud cover: "@,
        percent(weather.cloud as int),
        1,
        "%\n"@,
    ) + measure("- Rain probability: "@, percent(weather.rain_p as int), 1, "%\n"@);
    let rain = if weather.rain_mm > 0 {
        base + measure("- Expected rain: "@, weather.rain_mm as int, 1, "mm\n"@)
    } else {
        base
    };
    rain + "\n"@
}

/// Appends the block of one window to a prompt.
fn push_window_block(out: &mut String, id: &str, score: &DryingScore, weather: &WeatherFeatures)
    ensures
        final(out)@ == with_window_block(old(out)@, id@, *score, *weather),
{
    out.append("Window ");
    out.append(id);
    push_measure(out, ": Score ", score.score, 2, "\n");
    push_measure(out, "- Temperature: ", weather.temp_c, 1, "°C\n");
    push_measure(out, "- Humidity: ", weather.rh, 1, "%\n");
    push_measure(out, "- Wind: ", weather.wind_ms, 1, " m/s\n");
    push_measure(out, "- Cloud cover: ", percent_of(weather.cloud), 1, "%\n");
    push_measure(out, "- Rain probability: ", percent_of(weather.rain_p), 1, "%\n");
    if weather.rain_mm > 0 {
        push_measure(out, "- Expected rain: ", weather.rain_mm, 1, "mm\n");
    }
    out.append("\n");
}

/// A prompt with the blocks of the first `count` windows appended, one
/// after the other.
pub open spec fn with_window_blocks(
    prompt: Seq<char>,
    windows: Seq<(String, DryingScore, WeatherFeatures)>,
    count: int,
) -> Seq<char>
    decreases count,
{
    if count <= 0 {
        prompt
    } else {
        with_window_block(
            with_window_blocks(prompt, windows, count - 1),
            windows[count - 1].0@,
            windows[count - 1].1,
            windows[count - 1].2,
        )
    }
}

/// The prompt that asks for an explanation of up to three windows, with
/// the user's preferences where they are known.
pub open spec fn explanation_prompt(
    windows: Seq<(String, DryingScore, WeatherFeatures)>,
    preferences: Option<&str>,
) -> Seq<char> {
    let blocks = with_window_blocks(
        "Explain why these laundry drying time windows are recommended based on weather conditions:\n\n"@,
        windows,
        if windows.len() < 3 { windows.len() as int } else { 3 },
    );
    let wishes = match preferences {
        Some(text) => blocks + "User preferences: "@ + text@ + "\n\n"@,
        None => blocks,
    };
    wishes
        + "Provide a concise explanation (2-3 sentences) focusing on the key weather factors that make these windows optimal for drying clothes."@
}

/// Writes the prompt that asks the assistant to explain the best windows.
pub fn build_explanation_prompt(
    window_data: &[(String, DryingScore, WeatherFeatures)],
    user_preferences: Option<&str>,
) -> (prompt: String)
    ensures
        prompt@ == explanation_prompt(window_data@, user_preferences),
{
    let intro =
        "Explain why these laundry drying time windows are recommended based on weather conditions:\n\n";
    let mut prompt = String::from_str(intro);
    let shown: usize = if window_data.len() < 3 { window_data.len() } else { 3 };
    let mut i: usize = 0;
    while i < shown
        invariant
            i <= shown <= window_data@.len(),
            prompt@ == with_window_blocks(intro@, window_data@, i as int),
        decreases shown - i,
    {
        push_window_block(
            &mut prompt,
            window_data[i].0.as_str(),
            &window_data[i].1,
            &window_data[i].2,
        );
        i = i + 1;
    }
    match user_preferences {
        Some(text) => {
            prompt.append("User preferences: ");
            prompt.append(text);
            prompt.append("\n\n");
        },
        None => {},
    }
    prompt.append(
        "Provide a concise explanation (2-3 sentences) focusing on the key weather factors that make these windows optimal for drying clothes.",
    );
    prompt
}

/// The prompt that asks for drying tips in the given weather.
pub open spec fn tips_prompt(weather: WeatherFeatures, score: DryingScore) -> Seq<char> {
    "Given these weather conditions for laundry drying:\n"@ + measure(
        "- Temperature: "@,
        weather.temp_c as int,
        1,
        "°C\n"@,
    ) + measure("- Humidity: "@, weather.rh as int, 1, "%\n"@) + measure(
        "- Wind: "@,
        weather.wind_ms as int,
        1,
        " m/s\n"@,
    ) + measure("- Cloud cover: "@, percent(weather.cloud as int), 1, "%\n"@) + measure(
        "- Rain probability: "@,
        percent(weather.rain_p as int),
        1,
        "%\n"@,
    ) + measure("- Drying score: "@, score.score as int, 2, "/10\n\n"@)
        + "Provide 2-3 practical tips for optimizing laundry drying in these conditions. Focus on actionable advice like clothing placement, timing, or preparation."@
}

/// Writes the prompt that asks the assistant for drying tips.
pub fn build_tips_prompt(weather: &WeatherFeatures, score: &DryingScore) -> (prompt: String)
    ensures
        prompt@ == tips_prompt(*weather, *score),
{
    let mut prompt = String::from_str("Given these weather conditions for laundry drying:\n");
    push_measure(&mut prompt, "- Temperature: ", weather.temp_c, 1, "°C\n");
    push_measure(&mut prompt, "- Humidity: ", weather.rh, 1, "%\n");
    push_measure(&mut prompt, "- Wind: ", weather.wind_ms, 1, " m/s\n");
    push_measure(&mut prompt, "- Cloud cover: ", percent_of(weather.cloud), 1, "%\n");
    push_measure(&mut prompt, "- Rain probability: ", percent_of(weather.rain_p), 1, "%\n");
    push_measure(&mut prompt, "- Drying score: ", score.score, 2, "/10\n\n");
    prompt.append(
        "Provide 2-3 practical tips for optimizing laundry drying in these conditions. Focus on actionable advice like clothing placement, timing, or preparation.",
    );
    prompt
}

/// The prompt that asks for a recommendation in the given weather.
pub open spec fn laundry_recommendation_prompt(weather: WeatherFeatures) -> Seq<char> {
    "Based on the current weather conditions, provide a professional laundry drying recommendation:\n\nWeather Details:\n"@
        + measure("- Temperature: "@, weather.temp_c as int, 1, "°C\n"@) + measure(
        "- Humidity: "@,
        weather.rh as int,
        1,
        "%\n"@,
    ) + measure("- Wind Speed: "@, weather.wind_ms as int, 1, " m/s\n"@) + measure(
        "- Cloud Coverage: "@,
        percent(weather.cloud as int),
        1,
        "%\n"@,
    ) + measure("- Rain Probability: "@, percent(weather.rain_p as int), 1, "%\n\n"@)
        + "Please provide a concise, professional recommendation (2-3 sentences) about whether it's a good time to dry clothes outside. Include specific advice about drying conditions and any precautions to take. Be conversational and helpful, as if advising a friend."@
}

/// Writes the prompt that asks the assistant for a recommendation.
pub fn build_laundry_recommendation_prompt(weather: &WeatherFeatures) -> (prompt: String)
    ensures
        prompt@ == laundry_recommendation_prompt(*weather),
{
    let mut prompt = String::from_str(
        "Based on the current weather conditions, provide a professional laundry drying recommendation:\n\nWeather Details:\n",
    );
    push_measure(&mut prompt, "- Temperature: ", weather.temp_c, 1, "°C\n");
    push_measure(&mut prompt, "- Humidity: ", weather.rh, 1, "%\n");
    push_measure(&mut prompt, "- Wind Speed: ", weather.wind_ms, 1, " m/s\n");
    push_measure(&mut prompt, "- Cloud Coverage: ", percent_of(weather.cloud), 1, "%\n");
    push_measure(&mut prompt, "- Rain Probability: ", percent_of(weather.rain_p), 1, "%\n\n");
    prompt.append(
        "Please provide a concise, professional recommendation (2-3 sentences) about whether it's a good time to dry clothes outside. Include specific advice about drying conditions and any precautions to take. Be conversational and helpful, as if advising a friend.",
    );
    prompt
}

/// The prompt that asks for a structured analysis of a piece of feedback.
pub open spec fn feedback_analysis_prompt(feedback: Seq<char>, weather: WeatherFeatures) -> Seq<
    char,
> {
    "Analyze this user feedback about laundry drying results:\nFeedback: \""@ + feedback
        + "\"\n\nWeather context:\n"@ + measure(
        "- Temperature: "@,
        weather.temp_c as int,
        1,
        "°C\n"@,
    ) + measure("- Humidity: "@, weather.rh as int, 1, "%\n"@) + measure(
        "- Wind: "@,
        weather.wind_ms as int,
        1,
        " m/s\n"@,
    ) + measure("- Rain: "@, weather.rain_mm as int, 1, "mm\n\n"@)
        + "Respond in this exact format:\nSATISFACTION: [satisfied/neutral/dissatisfied]\nDRYING_RESULT: [completely_dry/mostly_dry/partially_dry/not_dry]\nKEY_FACTORS: [list 1-2 main weather factors mentioned]\nCONFIDENCE: [high/medium/low]"@
}

/// Writes the prompt that asks the assistant to analyse feedback.
pub fn build_feedback_analysis_prompt(feedback_text: &str, weather_context: &WeatherFeatures) -> (
    prompt: String)
    ensures
        prompt@ == feedback_analysis_prompt(feedback_text@, *weather_context),
{
    let mut prompt = String::from_str(
        "Analyze this user feedback about laundry drying results:\nFeedback: \"",
    );
    prompt.append(feedback_text);
    prompt.append("\"\n\nWeather context:\n");
    push_measure(&mut prompt, "- Temperature: ", weather_context.temp_c, 1, "°C\n");
    push_measure(&mut prompt, "- Humidity: ", weather_context.rh, 1, "%\n");
    push_measure(&mut prompt, "- Wind: ", weather_context.wind_ms, 1, " m/s\n");
    push_measure(&mut prompt, "- Rain: ", weather_context.rain_mm, 1, "mm\n\n");
    prompt.append(
        "Respond in this exact format:\nSATISFACTION: [satisfied/neutral/dissatisfied]\nDRYING_RESULT: [completely_dry/mostly_dry/partially_dry/not_dry]\nKEY_FACTORS: [list 1-2 main weather factors mentioned]\nCONFIDENCE: [high/medium/low]",
    );
    prompt
}

/// What an answer of the chat service amounts to: with status 200 the
/// text of its first choice, or an error where it has none; with status
/// 429 the rate limit; with any other status an error that quotes the
/// status line and the body.
pub open spec fn is_chat_outcome(
    outcome: Result<String, AiError>,
    status: u16,
    status_line: Seq<char>,
    first_choice: Option<String>,
    body: Seq<char>,
) -> bool {
    if status == 200 {
        match first_choice {
            Some(text) => outcome matches Ok(answer) && answer == text,
            None => outcome matches Err(AiError::ApiError(message)) && message@
                == "No response choices"@,
        }
    } else if status == 429 {
        outcome matches Err(AiError::RateLimited)
    } else {
        outcome matches Err(AiError::ApiError(message)) && message@ == "HTTP "@ + status_line
            + ": "@ + body
    }
}

/// Turns an answer of the chat service into text or an error.
pub fn chat_outcome(status: u16, status_line: &str, first_choice: Option<String>, body: &str) -> (
    outcome: Result<String, AiError>)
    ensures
        is_chat_outcome(outcome, status, status_line@, first_choice, body@),
{
    if status == 200 {
        match first_choice {
            Some(text) => Ok(text),
            None => Err(AiError::ApiError(String::from_str("No response choices"))),
        }
    } else if status == 429 {
        Err(AiError::RateLimited)
    } else {
        let mut message = String::from_str("HTTP ");
        message.append(status_line);
        message.append(": ");
        message.append(body);
        Err(AiError::ApiError(message))
    }
}

} // verus!
