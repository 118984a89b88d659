# plot

Plots of a benchmark report, drawn with gnuplot. The library (`src/`, verified
with Verus) holds what the plots compute apart from floating point and drawing:

- `escape`: escaping of underscores for gnuplot's enhanced text, with the laws
  that every underscore comes out escaped and that escaping is undone by
  reading `\_` back as `_`.
- `labels`: axis labels, plot titles, the paths of the SVG files, and decimal
  writing of integers.
- `units`: the unit (and scale) in which a duration is shown, by range.
- `outliers`: the Tukey labels of a sample and its split into clean points,
  mild and severe outliers.
- `summary`: the curves of a comparison plot (runs of benchmarks of the same
  function, grouped with itertools' `group_by`, each with a palette colour) and
  the rows of a violin plot.
- `colors`: the palette of comparison curves.
- `append`: adding one item at the end of a vector by value.

`app/` builds the figures with `criterion-plot` from `criterion-stats` data and
draws them; it calls the library for all of the above.
