use laundry_optimizer::ai::{
    build_explanation_prompt, build_feedback_analysis_prompt, build_laundry_recommendation_prompt,
    build_tips_prompt, chat_outcome, classify_feedback, parse_feedback_analysis,
    AiError, AnalysisConfidence, DryingResult, FeedbackSatisfaction, MockAiClient,
};
use laundry_optimizer::scoring::{
    calculate_drying_score, DryingScore, DryingWeights, WeatherFeatures,
};

fn fx(value: f64) -> i64 {
    (value * 1_000_000.0).round() as i64
}

fn weather(wind_ms: f64, rh: f64, rain_p: f64, rain_mm: f64) -> WeatherFeatures {
    WeatherFeatures {
        temp_c: fx(25.04),
        rh: fx(rh),
        wind_ms: fx(wind_ms),
        cloud: fx(0.3),
        rain_p: fx(rain_p),
        rain_mm: fx(rain_mm),
    }
}

fn score_of(weather: &WeatherFeatures) -> DryingScore {
    calculate_drying_score(weather, &DryingWeights::default())
}

#[test]
fn structured_answer_is_read_line_by_line() {
    let analysis = parse_feedback_analysis(
        "SATISFACTION: satisfied\r\nDRYING_RESULT:  mostly_dry \nKEY_FACTORS: wind, , humidity ,\nCONFIDENCE: high\nnoise",
    )
    .unwrap();
    assert_eq!(analysis.satisfaction, FeedbackSatisfaction::Satisfied);
    assert_eq!(analysis.drying_result, DryingResult::MostlyDry);
    assert_eq!(analysis.key_factors, vec!["wind".to_string(), "humidity".to_string()]);
    assert_eq!(analysis.confidence, AnalysisConfidence::High);
}

#[test]
fn structured_answer_without_labels_reads_blank() {
    for response in ["", "\n\n", "nothing of use", "satisfaction: satisfied", " SATISFACTION: satisfied", "SATISFACTION:satisfied"] {
        let analysis = parse_feedback_analysis(response).unwrap();
        assert_eq!(analysis.satisfaction, FeedbackSatisfaction::Neutral);
        assert_eq!(analysis.drying_result, DryingResult::PartiallyDry);
        assert!(analysis.key_factors.is_empty());
        assert_eq!(analysis.confidence, AnalysisConfidence::Medium);
    }
}

#[test]
fn structured_answer_knows_every_word() {
    let read = |line: &str| parse_feedback_analysis(line).unwrap();
    assert_eq!(read("SATISFACTION: dissatisfied").satisfaction, FeedbackSatisfaction::Dissatisfied);
    assert_eq!(read("SATISFACTION: neutral").satisfaction, FeedbackSatisfaction::Neutral);
    assert_eq!(read("SATISFACTION: Satisfied").satisfaction, FeedbackSatisfaction::Neutral);
    assert_eq!(read("DRYING_RESULT: completely_dry").drying_result, DryingResult::CompletelyDry);
    assert_eq!(read("DRYING_RESULT: not_dry").drying_result, DryingResult::NotDry);
    assert_eq!(read("DRYING_RESULT: partially_dry").drying_result, DryingResult::PartiallyDry);
    assert_eq!(read("DRYING_RESULT: dry").drying_result, DryingResult::PartiallyDry);
    assert_eq!(read("CONFIDENCE: low").confidence, AnalysisConfidence::Low);
    assert_eq!(read("CONFIDENCE: medium").confidence, AnalysisConfidence::Medium);
    assert_eq!(read("CONFIDENCE: \thigh\u{a0}").confidence, AnalysisConfidence::High);
    assert_eq!(read("CONFIDENCE: high!").confidence, AnalysisConfidence::Medium);
}

#[test]
fn structured_answer_lets_a_later_line_override() {
    let analysis = parse_feedback_analysis(
        "CONFIDENCE: low\nKEY_FACTORS: sun\nCONFIDENCE: high\nKEY_FACTORS: \nSATISFACTION: satisfied\nSATISFACTION: what\n",
    )
    .unwrap();
    assert_eq!(analysis.confidence, AnalysisConfidence::High);
    assert!(analysis.key_factors.is_empty());
    assert_eq!(analysis.satisfaction, FeedbackSatisfaction::Neutral);
}

#[test]
fn structured_answer_keeps_a_lone_carriage_return_in_the_last_line() {
    let analysis = parse_feedback_analysis("KEY_FACTORS: a\rb,c\r\nKEY_FACTORS: x,y\r").unwrap();
    assert_eq!(analysis.key_factors, vec!["x".to_string(), "y".to_string()]);
    let analysis = parse_feedback_analysis("KEY_FACTORS: a\rb,c\r\n").unwrap();
    assert_eq!(analysis.key_factors, vec!["a\rb".to_string(), "c".to_string()]);
}

#[test]
fn mock_tips_depend_on_wind_humidity_and_rain() {
    let mock = MockAiClient::new();
    let calm = weather(2.0, 60.0, 0.1, 0.0);
    assert_eq!(
        mock.generate_drying_tips(&calm, &score_of(&calm)).unwrap(),
        "Conditions look good for drying - hang clothes evenly spaced for best results."
    );
    let windy = weather(3.5, 85.0, 0.4, 0.0);
    assert_eq!(
        mock.generate_drying_tips(&windy, &score_of(&windy)).unwrap(),
        "Take advantage of the strong wind by hanging clothes in open areas. High humidity may slow drying - consider using a covered but ventilated area. Keep an eye on the sky and be ready to bring clothes in if rain starts."
    );
    let still = weather(0.5, 80.0, 0.3, 0.0);
    assert_eq!(
        mock.generate_drying_tips(&still, &score_of(&still)).unwrap(),
        "With low wind, space clothes well apart for better air circulation."
    );
    let wet = weather(3.0, 80.0, 0.31, 0.0);
    assert_eq!(
        mock.generate_drying_tips(&wet, &score_of(&wet)).unwrap(),
        "Keep an eye on the sky and be ready to bring clothes in if rain starts."
    );
}

#[test]
fn mock_explanation_describes_the_first_window() {
    let mock = MockAiClient::new();
    let first = weather(3.9, 60.99, 0.1, 0.25);
    let second = weather(1.0, 10.0, 0.0, 0.0);
    let windows = vec![
        ("w1".to_string(), score_of(&first), first),
        ("w2".to_string(), score_of(&second), second),
    ];
    assert_eq!(
        mock.explain_recommendation(&windows, Some("ignored")).unwrap(),
        "The recommended window has optimal conditions with 25°C temperature, 60% humidity, and 3 m/s wind speed, resulting in a drying score of -1.0/10. These conditions provide good evaporation rates while minimizing rain risk."
    );
    assert_eq!(
        mock.explain_recommendation(&[], None).unwrap(),
        "No suitable drying windows found in the current forecast."
    );
}

#[test]
fn mock_explanation_cuts_numbers_towards_zero() {
    let mock = MockAiClient::new();
    let mut cold = weather(0.0, 0.0, 0.0, 0.0);
    cold.temp_c = fx(-0.5);
    cold.rh = fx(-1.5);
    cold.wind_ms = i64::MAX;
    let mut score = score_of(&cold);
    score.score = fx(0.65);
    let text = mock.explain_recommendation(&[("w".to_string(), score, cold)], None).unwrap();
    assert!(text.contains("with 0°C temperature, -1% humidity, and 2147483647 m/s wind speed"));
    assert!(text.contains("a drying score of 0.7/10."));
}

#[test]
fn mock_analysis_reads_key_words_in_any_case() {
    let mock = MockAiClient::new();
    let context = weather(2.0, 60.0, 0.1, 0.0);
    let analysis = mock.analyze_feedback("It was GREAT, clothes fully dry", &context).unwrap();
    assert_eq!(analysis.satisfaction, FeedbackSatisfaction::Satisfied);
    assert_eq!(analysis.drying_result, DryingResult::CompletelyDry);
    assert_eq!(analysis.key_factors, vec!["temperature".to_string(), "humidity".to_string()]);
    assert_eq!(analysis.confidence, AnalysisConfidence::Medium);

    let analysis = mock.analyze_feedback("TERRIBLE. Everything STILL WET.", &context).unwrap();
    assert_eq!(analysis.satisfaction, FeedbackSatisfaction::Dissatisfied);
    assert_eq!(analysis.drying_result, DryingResult::NotDry);

    let analysis = mock.analyze_feedback("Mostly Dry by noon", &context).unwrap();
    assert_eq!(analysis.satisfaction, FeedbackSatisfaction::Neutral);
    assert_eq!(analysis.drying_result, DryingResult::MostlyDry);

    let analysis = mock.analyze_feedback("", &context).unwrap();
    assert_eq!(analysis.satisfaction, FeedbackSatisfaction::Neutral);
    assert_eq!(analysis.drying_result, DryingResult::PartiallyDry);
}

#[test]
fn classification_expects_lower_case() {
    assert_eq!(classify_feedback("GOOD").satisfaction, FeedbackSatisfaction::Neutral);
    assert_eq!(classify_feedback("good").satisfaction, FeedbackSatisfaction::Satisfied);
    assert_eq!(classify_feedback("perfect but bad").satisfaction, FeedbackSatisfaction::Satisfied);
    assert_eq!(classify_feedback("awful").satisfaction, FeedbackSatisfaction::Dissatisfied);
    assert_eq!(classify_feedback("not dry, completely dry").drying_result, DryingResult::CompletelyDry);
    assert_eq!(classify_feedback("not dry").drying_result, DryingResult::NotDry);
    assert_eq!(classify_feedback("notdry").drying_result, DryingResult::PartiallyDry);
}

#[test]
fn explanation_prompt_lists_up_to_three_windows() {
    let wet = weather(3.0, 60.05, 0.1, 0.25);
    let dry = weather(3.0, 60.05, 0.1, 0.0);
    let windows = vec![
        ("w1".to_string(), score_of(&wet), wet),
        ("w2".to_string(), score_of(&dry), dry),
        ("w3".to_string(), score_of(&dry), dry),
        ("w4".to_string(), score_of(&dry), dry),
    ];
    let prompt = build_explanation_prompt(&windows, Some("dry fast"));
    let expected = "Explain why these laundry drying time windows are recommended based on weather conditions:\n\n\
Window w1: Score -1.00\n- Temperature: 25.0°C\n- Humidity: 60.1%\n- Wind: 3.0 m/s\n- Cloud cover: 30.0%\n- Rain probability: 10.0%\n- Expected rain: 0.3mm\n\n\
Window w2: Score 0.67\n- Temperature: 25.0°C\n- Humidity: 60.1%\n- Wind: 3.0 m/s\n- Cloud cover: 30.0%\n- Rain probability: 10.0%\n\n\
Window w3: Score 0.67\n- Temperature: 25.0°C\n- Humidity: 60.1%\n- Wind: 3.0 m/s\n- Cloud cover: 30.0%\n- Rain probability: 10.0%\n\n\
User preferences: dry fast\n\n\
Provide a concise explanation (2-3 sentences) focusing on the key weather factors that make these windows optimal for drying clothes.";
    assert_eq!(prompt, expected);
}

#[test]
fn explanation_prompt_without_windows_or_preferences() {
    assert_eq!(
        build_explanation_prompt(&[], None),
        "Explain why these laundry drying time windows are recommended based on weather conditions:\n\nProvide a concise explanation (2-3 sentences) focusing on the key weather factors that make these windows optimal for drying clothes."
    );
}

#[test]
fn tips_prompt_states_weather_and_score() {
    let wet = weather(3.0, 60.05, 0.1, 0.25);
    assert_eq!(
        build_tips_prompt(&wet, &score_of(&wet)),
        "Given these weather conditions for laundry drying:\n- Temperature: 25.0°C\n- Humidity: 60.1%\n- Wind: 3.0 m/s\n- Cloud cover: 30.0%\n- Rain probability: 10.0%\n- Drying score: -1.00/10\n\nProvide 2-3 practical tips for optimizing laundry drying in these conditions. Focus on actionable advice like clothing placement, timing, or preparation."
    );
}

#[test]
fn recommendation_prompt_states_the_weather() {
    let wet = weather(3.0, 60.05, 0.1, 0.25);
    assert_eq!(
        build_laundry_recommendation_prompt(&wet),
        "Based on the current weather conditions, provide a professional laundry drying recommendation:\n\nWeather Details:\n- Temperature: 25.0°C\n- Humidity: 60.1%\n- Wind Speed: 3.0 m/s\n- Cloud Coverage: 30.0%\n- Rain Probability: 10.0%\n\nPlease provide a concise, professional recommendation (2-3 sentences) about whether it's a good time to dry clothes outside. Include specific advice about drying conditions and any precautions to take. Be conversational and helpful, as if advising a friend."
    );
}

#[test]
fn feedback_prompt_quotes_the_feedback() {
    let wet = weather(3.0, 60.05, 0.1, 0.25);
    assert_eq!(
        build_feedback_analysis_prompt("all \"dry\"", &wet),
        "Analyze this user feedback about laundry drying results:\nFeedback: \"all \"dry\"\"\n\nWeather context:\n- Temperature: 25.0°C\n- Humidity: 60.1%\n- Wind: 3.0 m/s\n- Rain: 0.3mm\n\nRespond in this exact format:\nSATISFACTION: [satisfied/neutral/dissatisfied]\nDRYING_RESULT: [completely_dry/mostly_dry/partially_dry/not_dry]\nKEY_FACTORS: [list 1-2 main weather factors mentioned]\nCONFIDENCE: [high/medium/low]"
    );
}

#[test]
fn chat_answer_becomes_text_or_an_error() {
    assert_eq!(chat_outcome(200, "200 OK", Some("hang them out".to_string()), "").unwrap(), "hang them out");
    assert!(matches!(
        chat_outcome(200, "200 OK", None, "ignored"),
        Err(AiError::ApiError(message)) if message == "No response choices"
    ));
    assert!(matches!(chat_outcome(429, "429 Too Many Requests", None, "slow down"), Err(AiError::RateLimited)));
    assert!(matches!(
        chat_outcome(503, "503 Service Unavailable", Some("unused".to_string()), "down"),
        Err(AiError::ApiError(message)) if message == "HTTP 503 Service Unavailable: down"
    ));
}
