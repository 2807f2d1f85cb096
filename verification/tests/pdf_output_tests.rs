use chronomap::models::{Event, Timeline, Track};
use chronomap::pdf::{generate_pdf_plan, PdfPlan};
use printpdf::path::{PaintMode, WindingOrder};
use printpdf::{BuiltinFont, Color, Line, Mm, PdfDocument, Point, Polygon, Rgb};

fn mm(centi_mm: i64) -> Mm {
    Mm(centi_mm as f32 / 100.0)
}

fn rgb(c: chronomap::color::Rgb) -> Color {
    Color::Rgb(Rgb::new(
        c.r as f32 / 255.0,
        c.g as f32 / 255.0,
        c.b as f32 / 255.0,
        None,
    ))
}

/// Turns a verified document plan into the binary page-description bytes,
/// the way the surrounding application does.
fn plan_to_bytes(plan: &PdfPlan) -> Vec<u8> {
    let page_w = mm(27940);
    let page_h = mm(21590);
    let (doc, cover_page, cover_layer) = PdfDocument::new(&plan.title, page_w, page_h, "Cover");
    let font = doc.add_builtin_font(BuiltinFont::Helvetica).expect("font");
    let font_bold = doc
        .add_builtin_font(BuiltinFont::HelveticaBold)
        .expect("bold font");

    let cover = doc.get_page(cover_page).get_layer(cover_layer);
    cover.begin_text_section();
    cover.set_font(&font_bold, 24.0);
    cover.set_text_cursor(mm(5000), mm(14000));
    cover.write_text(&plan.title, &font_bold);
    cover.end_text_section();
    cover.begin_text_section();
    cover.set_font(&font, 12.0);
    cover.set_text_cursor(mm(5000), mm(12500));
    cover.write_text(&plan.date_range, &font);
    cover.end_text_section();
    cover.begin_text_section();
    cover.set_font(&font, 10.0);
    cover.set_text_cursor(mm(5000), mm(11500));
    cover.write_text(&plan.count_text, &font);
    cover.end_text_section();
    if let Some(ref desc) = plan.description {
        cover.begin_text_section();
        cover.set_font(&font, 9.0);
        cover.set_text_cursor(mm(5000), mm(10000));
        cover.write_text(desc, &font);
        cover.end_text_section();
    }

    for page in &plan.pages {
        let (pi, li) = doc.add_page(page_w, page_h, page.label.as_str());
        let layer = doc.get_page(pi).get_layer(li);
        layer.begin_text_section();
        layer.set_font(&font, 8.0);
        layer.set_text_cursor(mm(2000), mm(20590));
        layer.write_text(&page.label, &font);
        layer.end_text_section();

        for lane in &page.lanes {
            layer.set_fill_color(rgb(lane.tint));
            layer.add_polygon(Polygon {
                rings: vec![vec![
                    (Point::new(mm(2000), mm(lane.y_bottom)), false),
                    (Point::new(mm(2000), mm(lane.y_top)), false),
                    (Point::new(mm(25940), mm(lane.y_top)), false),
                    (Point::new(mm(25940), mm(lane.y_bottom)), false),
                ]],
                mode: PaintMode::Fill,
                winding_order: WindingOrder::NonZero,
            });
            layer.begin_text_section();
            layer.set_font(&font, 7.0);
            layer.set_text_cursor(mm(2100), mm(lane.y_top - 400));
            layer.write_text(&lane.name, &font);
            layer.end_text_section();
        }

        for bar in &page.bars {
            layer.set_fill_color(rgb(bar.color));
            layer.add_polygon(Polygon {
                rings: vec![vec![
                    (Point::new(mm(bar.x), mm(bar.y)), false),
                    (Point::new(mm(bar.x), mm(bar.y + bar.h)), false),
                    (Point::new(mm(bar.x + bar.w), mm(bar.y + bar.h)), false),
                    (Point::new(mm(bar.x + bar.w), mm(bar.y)), false),
                ]],
                mode: PaintMode::Fill,
                winding_order: WindingOrder::NonZero,
            });
            layer.begin_text_section();
            layer.set_font(&font, 6.0);
            layer.set_text_cursor(mm(bar.label_x), mm(bar.label_y));
            layer.write_text(&bar.label, &font);
            layer.end_text_section();
        }

        for marker in &page.markers {
            let segments = 12;
            let points: Vec<(Point, bool)> = (0..segments)
                .map(|i| {
                    let angle = 2.0 * std::f64::consts::PI * (i as f64) / (segments as f64);
                    let px = marker.cx as f64 / 100.0 + marker.radius as f64 / 100.0 * angle.cos();
                    let py = marker.cy as f64 / 100.0 + marker.radius as f64 / 100.0 * angle.sin();
                    (Point::new(Mm(px as f32), Mm(py as f32)), false)
                })
                .collect();
            layer.set_fill_color(rgb(marker.color));
            layer.add_polygon(Polygon {
                rings: vec![points],
                mode: PaintMode::Fill,
                winding_order: WindingOrder::NonZero,
            });
            layer.begin_text_section();
            layer.set_font(&font, 6.0);
            layer.set_text_cursor(mm(marker.label_x), mm(marker.label_y));
            layer.write_text(&marker.label, &font);
            layer.end_text_section();
        }

        layer.add_line(Line {
            points: vec![
                (Point::new(mm(2000), mm(page.axis_y)), false),
                (Point::new(mm(25940), mm(page.axis_y)), false),
            ],
            is_closed: false,
        });
        for tick in &page.ticks {
            layer.add_line(Line {
                points: vec![
                    (Point::new(mm(tick.x), mm(page.axis_y - 150)), false),
                    (Point::new(mm(tick.x), mm(page.axis_y + 150)), false),
                ],
                is_closed: false,
            });
            layer.begin_text_section();
            layer.set_font(&font, 7.0);
            layer.set_text_cursor(mm(tick.x - 300), mm(page.axis_y - 400));
            layer.write_text(format!("{}", tick.year), &font);
            layer.end_text_section();
        }
    }

    doc.save_to_bytes().expect("serialize")
}

fn ev(id: &str, track_id: &str, title: &str, start: &str, end: Option<&str>, kind: &str) -> Event {
    Event {
        id: String::from(id),
        timeline_id: String::from("tl"),
        track_id: String::from(track_id),
        title: String::from(title),
        description: String::new(),
        start_date: String::from(start),
        end_date: end.map(String::from),
        event_type: String::from(kind),
        importance: 3,
        color: None,
        icon: None,
        image_path: None,
        external_link: None,
        tags: String::new(),
        source: None,
        ai_generated: false,
        created_at: String::new(),
        updated_at: String::new(),
    }
}

#[test]
fn test_generate_pdf_basic() {
    let timeline = Timeline {
        id: String::from("tl"),
        title: String::from("PDF Test Timeline"),
        description: String::from("For PDF export testing"),
        created_at: String::new(),
        updated_at: String::new(),
    };
    let tracks = vec![Track {
        id: String::from("tr1"),
        timeline_id: String::from("tl"),
        name: String::from("Events"),
        color: String::from("#ef4444"),
        sort_order: 0,
        visible: true,
        created_at: String::new(),
    }];
    let events = vec![
        ev("e2", "tr1", "Industrial Rev", "1760-01-01", Some("1840-12-31"), "range"),
        ev("e1", "tr1", "Battle", "1815-06-18", None, "point"),
    ];
    let plan = generate_pdf_plan("tl", Some(&timeline), &tracks, &events).expect("generate pdf");
    let pdf_bytes = plan_to_bytes(&plan);

    assert!(pdf_bytes.len() > 100, "PDF should have substantial content");
    assert!(
        pdf_bytes.starts_with(b"%PDF"),
        "PDF should start with %PDF header"
    );
}

#[test]
fn test_generate_pdf_empty_timeline() {
    let timeline = Timeline {
        id: String::from("tl"),
        title: String::from("Empty PDF"),
        description: String::from("No events"),
        created_at: String::new(),
        updated_at: String::new(),
    };
    let plan = generate_pdf_plan("tl", Some(&timeline), &Vec::new(), &Vec::new())
        .expect("generate pdf");
    let pdf_bytes = plan_to_bytes(&plan);
    assert!(pdf_bytes.starts_with(b"%PDF"));
}
