# inferlets

Verified decision logic of three inferlets that run on an inference engine:

- `boundary`: cross-mode KV reuse. Which saved boundaries to try (the
  ladder), when an opened boundary may be used (only as a true token prefix
  of this turn's canonical prompt), what the open reports, what the exit half
  saves and reports.
- `arena`: the Next Token Arena's request rules (last user prompt, served
  model, sampling position) and the shaping of its report (token labels,
  previews, token counts).
- `lens`: which frames the Probability Lens forwards as they come.
- `text` and `error`: white space, substring search, decimal rendering, and
  the error type requests end with.

`src/` is verified with Verus. `app/` performs the engine calls (contexts,
forward passes, tokenizer, session channel) and hands the library plain
values; it is not verified.
