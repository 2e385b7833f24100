//! The page around a document's body: a fixed HTML shell that takes the title
//! and the body.

use vstd::prelude::*;
use crate::parser::{body_of, parse_next, title_of};

verus! {

/// The print page, up to the title.
pub const PRINT_HEAD: &'static str = r#"<!DOCTYPE html>
<html>
<head>
    <title>"#;

/// The print page, between the title and the body.
pub const PRINT_MIDDLE: &'static str = r#"</title>
    <link rel="stylesheet" href="https://cdn.jsdelivr.net/npm/katex@0.16.9/dist/katex.min.css">
    <script defer src="https://cdn.jsdelivr.net/npm/katex@0.16.9/dist/katex.min.js"></script>
    <script defer src="https://cdn.jsdelivr.net/npm/katex@0.16.9/dist/contrib/auto-render.min.js" onload="renderMathInElement(document.body);"></script>
    
    <style>
        body { font-family: 'Segoe UI', sans-serif; max-width: 210mm; margin: 40px auto; padding: 40px; line-height: 1.6; color: #333; }
        h1 { border-bottom: 2px solid #000; padding-bottom: 10px; } 
        h2 { color: #444; margin-top: 30px; }
        
        /* Note */
        .note { background: #e0f2fe; padding: 15px; border-left: 5px solid #0284c7; margin: 20px 0; border-radius: 4px; }
        
        /* Codice */
        pre { background: #1e293b; color: #fff; padding: 15px; border-radius: 5px; overflow-x: auto; }
        code { font-family: 'Consolas', monospace; }
        
        /* Liste */
        li { margin-bottom: 5px; }
        
        /* Immagini */
        .nxt-image { max-width: 100%; height: auto; border-radius: 8px; box-shadow: 0 4px 8px rgba(0,0,0,0.1); display: block; margin: 20px auto; }
        
        /* Tabelle */
        .nxt-table { width: 100%; border-collapse: collapse; margin: 20px 0; font-size: 0.95em; }
        .nxt-table td { border: 1px solid #ddd; padding: 12px; }
        .nxt-table tr:nth-child(even) { background-color: #f9f9f9; }
        .nxt-table tr:first-child { background-color: #1e293b; color: white; font-weight: bold; }

        @media print { body { margin: 0; max-width: 100%; } }
    </style>
</head>
<body>
    "#;

/// The print page, after the body.
pub const PRINT_TAIL: &'static str = r#"
</body>
</html>"#;

/// The web page, up to the title.
pub const WEB_HEAD: &'static str = r#"<!DOCTYPE html>
<html>
<head>
    <meta charset="utf-8">
    <title>"#;

/// The web page, between the title and the body.
pub const WEB_MIDDLE: &'static str = r#"</title>
    <link rel="stylesheet" href="https://cdn.jsdelivr.net/npm/katex@0.16.9/dist/katex.min.css">
    <script defer src="https://cdn.jsdelivr.net/npm/katex@0.16.9/dist/katex.min.js"></script>
    <script defer src="https://cdn.jsdelivr.net/npm/katex@0.16.9/dist/contrib/auto-render.min.js" onload="renderMathInElement(document.body);"></script>
    <style>
        body { font-family: sans-serif; padding: 20px; line-height: 1.6; max-width: 800px; margin: 0 auto; }
        h1 { border-bottom: 2px solid #333; padding-bottom: 10px; color: #333; }
        h2 { color: #0056b3; margin-top: 30px; }
        table { width: 100%; border-collapse: collapse; margin: 20px 0; }
        td, th { border: 1px solid #ddd; padding: 12px; text-align: left; }
        tr:nth-child(even) { background-color: #f9f9f9; }
        li { margin-bottom: 5px; }
        code { background: #f4f4f4; padding: 2px 5px; border-radius: 3px; font-family: monospace; }
    </style>
</head>
<body>
    "#;

/// The web page, after the body.
pub const WEB_TAIL: &'static str = r#"
</body>
</html>"#;

/// The print page with the given title and body in their places.
pub open spec fn print_page(title: Seq<char>, body: Seq<char>) -> Seq<char> {
    PRINT_HEAD@ + title + PRINT_MIDDLE@ + body + PRINT_TAIL@
}

/// The web page with the given title and body in their places.
pub open spec fn web_page(title: Seq<char>, body: Seq<char>) -> Seq<char> {
    WEB_HEAD@ + title + WEB_MIDDLE@ + body + WEB_TAIL@
}

/// The page for print: title and body are put into the shell as they are.
pub fn template(title: &str, body: &str) -> (page: String)
    ensures
        page@ == print_page(title@, body@),
{
    let mut page = String::new();
    page.append(PRINT_HEAD);
    page.append(title);
    page.append(PRINT_MIDDLE);
    page.append(body);
    page.append(PRINT_TAIL);
    page
}

/// The page for the web: title and body are put into the shell as they are.
pub fn generate_template(title: &str, body: &str) -> (page: String)
    ensures
        page@ == web_page(title@, body@),
{
    let mut page = String::new();
    page.append(WEB_HEAD);
    page.append(title);
    page.append(WEB_MIDDLE);
    page.append(body);
    page.append(WEB_TAIL);
    page
}

/// Converts the document `content` into a complete web page.
pub fn compile_next_to_html(content: &str) -> (page: String)
    ensures
        page@ == web_page(title_of(content@), body_of(content@)),
{
    let (body, title) = parse_next(content);
    generate_template(title.as_str(), body.as_str())
}

} // verus!
