# yolo

A small terminal user interface toolkit, verified with Verus, and a demo
application built on it.

The library (`src/`) holds the logic, each function with a contract:

- `layout`: positions, sizes, rectangles, margins, alignment and splitting
  by constraints.
- `chars`, `text`, `extensions`: text as characters, display widths,
  grapheme clusters, wrapping, and escape sequences within text.
- `style`: colors, attributes and the SGR escape sequences for them.
- `term`: the framebuffer that collects a frame's output and lays text out
  in rectangles.
- `scroll`, `block`, `list`, `tag_list`, `prompt`, `editor`: the widgets and
  their state; rendering a list or a tag list returns the layout to draw.
- `image`: decoding image bytes into frames (animated PNG, GIF and WebP
  frame by frame, other formats as one still image) and the kitty graphics
  protocol, from frames to the commands that send and place an image.
- `pages`: the demo's pages, how keys move between them and what each page
  does with a key.

The program (`app/`) runs the terminal: raw mode, events, writing frames,
reading image files, the sizing that is done with floating point (scaled
areas, fitted images, scrollbar thumbs), and the drawing of each page from
the library's widgets.
