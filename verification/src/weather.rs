//! Data the weather front end shows.
//!
//! The scraping that fills these values talks to the network and reads an
//! HTML document through an HTML parser, so it lives with the composing
//! program; the records it produces are plain data.

use vstd::prelude::*;
use crate::strutil::{str_eq, str_has_char};

verus! {

/// A failure while obtaining weather data, as a message.
#[derive(Debug)]
pub struct WeatherError(pub String);

impl WeatherError {
    /// The failure's message.
    pub fn message(&self) -> (r: &String)
        ensures
            r == self.0,
    {
        &self.0
    }
}

/// One day of the forecast, as displayed: the temperatures and the
/// precipitation keep the page's own wording.
#[derive(Debug)]
pub struct DayForecast {
    pub date: String,
    pub day_of_week: String,
    pub high_temp: String,
    pub low_temp: String,
    pub precipitation: String,
    pub description: String,
    pub icon: String,
}

/// The forecast-page code for a city, by its Japanese or romanized name;
/// anything unknown falls back to Tokyo's code.
pub open spec fn city_code(city: Seq<char>) -> Seq<char> {
    if city == "東京"@ || city == "tokyo"@ {
        "3/16/4410"@
    } else if city == "大阪"@ || city == "osaka"@ {
        "6/30/6200"@
    } else if city == "名古屋"@ || city == "nagoya"@ {
        "5/26/5110"@
    } else if city == "札幌"@ || city == "sapporo"@ {
        "1/2/1400"@
    } else if city == "福岡"@ || city == "fukuoka"@ {
        "9/41/8210"@
    } else if city == "京都"@ || city == "kyoto"@ {
        "6/29/6110"@
    } else if city == "神戸"@ || city == "kobe"@ {
        "6/30/6310"@
    } else if city == "横浜"@ || city == "yokohama"@ {
        "3/17/4610"@
    } else if city == "広島"@ || city == "hiroshima"@ {
        "7/35/6710"@
    } else if city == "仙台"@ || city == "sendai"@ {
        "2/10/3410"@
    } else {
        "3/16/4410"@
    }
}

/// The forecast page to scrape for a city.
pub fn get_tenkijp_url(city: &str) -> (r: Result<String, WeatherError>)
    ensures
        r matches Ok(url) && url@ == "https://tenki.jp/forecast/"@ + city_code(city@) + "/"@,
{
    let code: &str = if str_eq(city, "東京") || str_eq(city, "tokyo") {
        "3/16/4410"
    } else if str_eq(city, "大阪") || str_eq(city, "osaka") {
        "6/30/6200"
    } else if str_eq(city, "名古屋") || str_eq(city, "nagoya") {
        "5/26/5110"
    } else if str_eq(city, "札幌") || str_eq(city, "sapporo") {
        "1/2/1400"
    } else if str_eq(city, "福岡") || str_eq(city, "fukuoka") {
        "9/41/8210"
    } else if str_eq(city, "京都") || str_eq(city, "kyoto") {
        "6/29/6110"
    } else if str_eq(city, "神戸") || str_eq(city, "kobe") {
        "6/30/6310"
    } else if str_eq(city, "横浜") || str_eq(city, "yokohama") {
        "3/17/4610"
    } else if str_eq(city, "広島") || str_eq(city, "hiroshima") {
        "7/35/6710"
    } else if str_eq(city, "仙台") || str_eq(city, "sendai") {
        "2/10/3410"
    } else {
        "3/16/4410"
    };
    let mut url = "https://tenki.jp/forecast/".to_owned();
    url.append(code);
    url.append("/");
    Ok(url)
}

/// The icon code a weather description maps to, by the kanji keywords it
/// contains.
pub open spec fn icon_code(d: Seq<char>) -> Seq<char> {
    if d.contains('晴') && d.contains('曇') {
        "02d"@
    } else if d.contains('晴') && d.contains('雨') {
        "10d"@
    } else if d.contains('晴') {
        "01d"@
    } else if d.contains('曇') && d.contains('雨') {
        "09d"@
    } else if d.contains('曇') {
        "03d"@
    } else if d.contains('雨') && d.contains('雪') {
        "13d"@
    } else if d.contains('雨') && d.contains('強') {
        "11d"@
    } else if d.contains('雨') {
        "09d"@
    } else if d.contains('雪') {
        "13d"@
    } else if d.contains('雷') {
        "11d"@
    } else if d.contains('霧') {
        "50d"@
    } else {
        "01d"@
    }
}

/// The icon address for a weather description.
pub fn get_weather_icon(description: &str) -> (r: String)
    ensures
        r@ == "https://openweathermap.org/img/wn/"@ + icon_code(description@) + "@2x.png"@,
{
    let code: &str = if str_has_char(description, '晴') && str_has_char(description, '曇') {
        "02d"
    } else if str_has_char(description, '晴') && str_has_char(description, '雨') {
        "10d"
    } else if str_has_char(description, '晴') {
        "01d"
    } else if str_has_char(description, '曇') && str_has_char(description, '雨') {
        "09d"
    } else if str_has_char(description, '曇') {
        "03d"
    } else if str_has_char(description, '雨') && str_has_char(description, '雪') {
        "13d"
    } else if str_has_char(description, '雨') && str_has_char(description, '強') {
        "11d"
    } else if str_has_char(description, '雨') {
        "09d"
    } else if str_has_char(description, '雪') {
        "13d"
    } else if str_has_char(description, '雷') {
        "11d"
    } else if str_has_char(description, '霧') {
        "50d"
    } else {
        "01d"
    };
    let mut url = "https://openweathermap.org/img/wn/".to_owned();
    url.append(code);
    url.append("@2x.png");
    url
}

} // verus!
