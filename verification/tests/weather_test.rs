use container_monitoring::weather::{get_tenkijp_url, get_weather_icon, DayForecast, WeatherError};

#[test]
fn test_city_urls() {
    assert_eq!(
        get_tenkijp_url("tokyo").unwrap(),
        "https://tenki.jp/forecast/3/16/4410/"
    );
    assert_eq!(
        get_tenkijp_url("大阪").unwrap(),
        "https://tenki.jp/forecast/6/30/6200/"
    );
    assert_eq!(
        get_tenkijp_url("sendai").unwrap(),
        "https://tenki.jp/forecast/2/10/3410/"
    );
    // Unknown cities fall back to Tokyo's page.
    assert_eq!(
        get_tenkijp_url("atlantis").unwrap(),
        "https://tenki.jp/forecast/3/16/4410/"
    );
}

#[test]
fn test_weather_icons() {
    assert_eq!(
        get_weather_icon("晴れ"),
        "https://openweathermap.org/img/wn/01d@2x.png"
    );
    assert_eq!(
        get_weather_icon("晴れ時々曇り"),
        "https://openweathermap.org/img/wn/02d@2x.png"
    );
    assert_eq!(
        get_weather_icon("曇りのち雨"),
        "https://openweathermap.org/img/wn/09d@2x.png"
    );
    assert_eq!(
        get_weather_icon("雪"),
        "https://openweathermap.org/img/wn/13d@2x.png"
    );
    assert_eq!(
        get_weather_icon("霧"),
        "https://openweathermap.org/img/wn/50d@2x.png"
    );
    // Nothing recognized: the clear-sky icon.
    assert_eq!(
        get_weather_icon("unknown"),
        "https://openweathermap.org/img/wn/01d@2x.png"
    );
}

#[test]
fn test_weather_data_types() {
    let err = WeatherError(String::from("no data"));
    assert_eq!(err.message(), "no data");

    let day = DayForecast {
        date: String::from("10/08"),
        day_of_week: String::from("水"),
        high_temp: String::from("21℃"),
        low_temp: String::from("14℃"),
        precipitation: String::from("0%"),
        description: String::from("晴れ"),
        icon: get_weather_icon("晴れ"),
    };
    assert_eq!(day.high_temp, "21℃");
    assert!(day.icon.ends_with("01d@2x.png"));
}
