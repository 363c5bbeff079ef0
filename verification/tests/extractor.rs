use holiday_scraper::holiday_processor::HolidayProcessor;

#[test]
fn test_holiday_processor_valid_html() {
    let html = r#"
            <table>
                <thead>
                    <tr><th>Holiday</th><th>2023</th><th>2024</th></tr>
                </thead>
                <tbody>
                    <tr>
                        <th><strong>New Year's Day</strong></th>
                        <td>January 1</td><td>January 1</td>
                    </tr>
                    <tr>
                        <th><strong>Christmas Day</strong></th>
                        <td>December 25</td><td>December 25</td>
                    </tr>
                </tbody>
            </table>
        "#
    .to_string();

    let mut processor = HolidayProcessor::new(html);
    processor.run().expect("Processor failed");

    assert_eq!(processor.holidays.len(), 4);

    assert_eq!(processor.holidays[0].year, "2023");
    assert_eq!(processor.holidays[0].name, "New Year's Day");
    assert_eq!(processor.holidays[0].date, "January 1");

    assert_eq!(processor.holidays[1].year, "2024");
    assert_eq!(processor.holidays[1].name, "New Year's Day");
    assert_eq!(processor.holidays[1].date, "January 1");

    assert_eq!(processor.holidays[2].year, "2023");
    assert_eq!(processor.holidays[2].name, "Christmas Day");
    assert_eq!(processor.holidays[2].date, "December 25");

    assert_eq!(processor.holidays[3].year, "2024");
    assert_eq!(processor.holidays[3].name, "Christmas Day");
    assert_eq!(processor.holidays[3].date, "December 25");
}

#[test]
fn test_holiday_processor_empty_html() {
    let html = "".to_string();
    let mut processor = HolidayProcessor::new(html);

    let result = processor.run();
    assert!(result.is_ok());
    assert_eq!(
        processor.holidays.len(),
        0,
        "No holidays should be parsed from empty HTML"
    );
}

#[test]
fn test_holiday_processor_invalid_html() {
    let html = r#"<html><table><thead><tr><th></th></tr></thead><tbody></tbody></table></html>"#
        .to_string();
    let mut processor = HolidayProcessor::new(html);

    let result = processor.run();
    assert!(result.is_ok());
    assert_eq!(
        processor.holidays.len(),
        0,
        "No holidays should be parsed from invalid HTML structure"
    );
}

#[test]
fn test_holiday_processor_special_characters() {
    let html = r#"
            <table>
                <thead>
                    <tr><th>Holiday</th><th>2023</th></tr>
                </thead>
                <tbody>
                    <tr>
                        <th><strong>Labor &amp; Workers' Day</strong></th>
                        <td>May 1&nbsp;&nbsp;</td>
                    </tr>
                    <tr>
                        <th><strong>Independence<br>Day</strong></th>
                        <td>July 4</td>
                    </tr>
                </tbody>
            </table>
        "#
    .to_string();

    let mut processor = HolidayProcessor::new(html);
    processor.run().expect("Processor failed");

    assert_eq!(processor.holidays.len(), 2);

    assert_eq!(processor.holidays[0].year, "2023");
    assert_eq!(processor.holidays[0].name, "Labor & Workers' Day");
    assert_eq!(processor.holidays[0].date, "May 1");

    assert_eq!(processor.holidays[1].year, "2023");
    assert_eq!(processor.holidays[1].name, "Independence Day");
    assert_eq!(processor.holidays[1].date, "July 4");
}

#[test]
fn test_holiday_processor_missing_dates() {
    let html = r#"
            <table>
                <thead>
                    <tr><th>Holiday</th><th>2023</th></tr>
                </thead>
                <tbody>
                    <tr>
                        <th><strong>Holiday with No Date</strong></th>
                        <td></td>
                    </tr>
                </tbody>
            </table>
        "#
    .to_string();

    let mut processor = HolidayProcessor::new(html);
    processor.run().expect("Processor failed");

    assert_eq!(processor.holidays.len(), 1);

    assert_eq!(processor.holidays[0].year, "2023");
    assert_eq!(processor.holidays[0].name, "Holiday with No Date");
    assert_eq!(processor.holidays[0].date, "");
}

#[test]
fn test_row_without_name_contributes_nothing() {
    let html = r#"
            <table>
                <thead>
                    <tr><th></th><th>2023</th><th>2024</th></tr>
                </thead>
                <tbody>
                    <tr>
                        <th>No emphasis here</th>
                        <td>January 1</td><td>January 1</td>
                    </tr>
                    <tr>
                        <th><strong>Kept Day</strong></th>
                        <td>March 3</td><td>March 4</td>
                    </tr>
                </tbody>
            </table>
        "#
    .to_string();

    let mut processor = HolidayProcessor::new(html);
    processor.run().expect("Processor failed");

    assert_eq!(processor.holidays.len(), 2);
    assert_eq!(processor.holidays[0].name, "Kept Day");
    assert_eq!(processor.holidays[0].year, "2023");
    assert_eq!(processor.holidays[0].date, "March 3");
    assert_eq!(processor.holidays[1].year, "2024");
    assert_eq!(processor.holidays[1].date, "March 4");
}

#[test]
fn test_lockstep_stops_at_shorter_side() {
    let html = r#"
            <table>
                <thead>
                    <tr><th></th><th>2023</th><th>2024</th></tr>
                </thead>
                <tbody>
                    <tr>
                        <th><strong>Many Cells</strong></th>
                        <td>a</td><td>b</td><td>c</td>
                    </tr>
                    <tr>
                        <th><strong>One Cell</strong></th>
                        <td>x</td>
                    </tr>
                </tbody>
            </table>
        "#
    .to_string();

    let mut processor = HolidayProcessor::new(html);
    processor.run().expect("Processor failed");

    assert_eq!(processor.holidays.len(), 3);
    assert_eq!(processor.holidays[0].name, "Many Cells");
    assert_eq!(processor.holidays[0].year, "2023");
    assert_eq!(processor.holidays[0].date, "a");
    assert_eq!(processor.holidays[1].year, "2024");
    assert_eq!(processor.holidays[1].date, "b");
    assert_eq!(processor.holidays[2].name, "One Cell");
    assert_eq!(processor.holidays[2].year, "2023");
    assert_eq!(processor.holidays[2].date, "x");
}

#[test]
fn test_zero_year_columns_with_valid_row() {
    let html = r#"
            <table>
                <thead>
                    <tr><th>Holiday</th></tr>
                </thead>
                <tbody>
                    <tr>
                        <th><strong>Orphan Day</strong></th>
                        <td>June 6</td>
                    </tr>
                </tbody>
            </table>
        "#
    .to_string();

    let mut processor = HolidayProcessor::new(html);
    processor.run().expect("Processor failed");

    assert_eq!(processor.holidays.len(), 0);
}

#[test]
fn test_run_appends_in_encounter_order_with_duplicates() {
    let html = r#"
            <table>
                <thead>
                    <tr><th></th><th>2023</th></tr>
                </thead>
                <tbody>
                    <tr><th><strong>Twin Day</strong></th><td>May 5</td></tr>
                    <tr><th><strong>Twin Day</strong></th><td>May 5</td></tr>
                </tbody>
            </table>
        "#
    .to_string();

    let mut processor = HolidayProcessor::new(html);
    processor.run().expect("Processor failed");

    assert_eq!(processor.holidays.len(), 2);
    assert_eq!(processor.holidays[0].name, "Twin Day");
    assert_eq!(processor.holidays[1].name, "Twin Day");
    assert_eq!(processor.holidays[0].date, "May 5");
    assert_eq!(processor.holidays[1].date, "May 5");
}

#[test]
fn test_new_starts_empty() {
    let processor = HolidayProcessor::new("<table></table>".to_string());
    assert_eq!(processor.holidays.len(), 0);
}

#[test]
fn test_pretty_print_lines() {
    let html = r#"
            <table>
                <thead>
                    <tr><th></th><th>2023</th></tr>
                </thead>
                <tbody>
                    <tr><th><strong>New Year's Day</strong></th><td>January 1</td></tr>
                </tbody>
            </table>
        "#
    .to_string();

    let mut processor = HolidayProcessor::new(html);
    processor.run().expect("Processor failed");
    let lines = processor.pretty_print();
    assert_eq!(lines.len(), 1);
    assert_eq!(lines[0], "Year: 2023, Holiday: New Year's Day, Date: January 1");
}
